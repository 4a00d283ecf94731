//! The game configuration file: a line-oriented `key: value;` format with
//! snake_case keys on disk and camelCase keys toward the caller.
//!
//! Reading collects every line that, after trimming, ends with `;` and
//! holds a `:`, later lines winning over earlier ones with the same key.
//! Writing updates each `key: ... ;` occurrence in place — matching the key
//! case-insensitively and keeping its original spelling — or appends a new
//! `key: value;` line when the key does not occur.

use vstd::prelude::*;

use vstd::string::StrSliceExecFns;
use vstd::string::StringExecFns;

use crate::naming::{camelize, snake_from};
use crate::router::{find_char, find_from, lemma_find_from_bounds};
use crate::text::lower_char;

verus! {

/// ASCII whitespace trimmed from line ends, keys and values.
pub open spec fn is_space(c: char) -> bool {
    c == ' ' || c == '\t' || c == '\r' || c == '\n'
}

/// The string without leading whitespace.
pub open spec fn trim_front(s: Seq<char>) -> Seq<char>
    decreases s.len(),
{
    if s.len() > 0 && is_space(s[0]) {
        trim_front(s.skip(1))
    } else {
        s
    }
}

/// The string without trailing whitespace.
pub open spec fn trim_back(s: Seq<char>) -> Seq<char>
    decreases s.len(),
{
    if s.len() > 0 && is_space(s.last()) {
        trim_back(s.drop_last())
    } else {
        s
    }
}

/// The string without leading or trailing whitespace.
pub open spec fn spec_trim(s: Seq<char>) -> Seq<char> {
    trim_back(trim_front(s))
}

/// What one line contributes: `Some(key, value)` for a trimmed non-empty
/// line ending in `;` whose body holds a `:` — the key, trimmed and
/// translated to camelCase, and the trimmed value — and `None` for every
/// other line.
pub open spec fn parse_line(line: Seq<char>) -> Option<(Seq<char>, Seq<char>)> {
    let t = spec_trim(line);
    if t.len() == 0 {
        None
    } else if t.last() != ';' {
        None
    } else {
        let body = t.drop_last();
        let k = find_from(body, ':', 0);
        if k < 0 {
            None
        } else {
            Some(
                (
                    camelize(spec_trim(body.take(k)), false),
                    spec_trim(body.skip(k + 1)),
                ),
            )
        }
    }
}

/// One line folded into the configuration mapping.
pub open spec fn apply_line(m: Map<Seq<char>, Seq<char>>, line: Seq<char>) -> Map<
    Seq<char>,
    Seq<char>,
> {
    match parse_line(line) {
        None => m,
        Some(kv) => m.insert(kv.0, kv.1),
    }
}

/// The mapping the whole file denotes: its lines folded in order, later
/// lines winning.
pub open spec fn fold_lines(m: Map<Seq<char>, Seq<char>>, s: Seq<char>) -> Map<
    Seq<char>,
    Seq<char>,
>
    decreases s.len(),
    via fold_lines_dec
{
    let k = find_from(s, '\n', 0);
    if k < 0 {
        apply_line(m, s)
    } else {
        fold_lines(apply_line(m, s.take(k)), s.skip(k + 1))
    }
}

#[via_fn]
proof fn fold_lines_dec(m: Map<Seq<char>, Seq<char>>, s: Seq<char>) {
    lemma_find_from_bounds(s, '\n', 0);
}

/// The configuration mapping of a file's content.
pub open spec fn config_of(content: Seq<char>) -> Map<Seq<char>, Seq<char>> {
    fold_lines(Map::empty(), content)
}

/// One configuration entry: a camelCase key and its value.
pub struct ConfigEntry {
    pub key: String,
    pub value: String,
}

/// The mapping a sequence of entries denotes, later entries winning.
pub open spec fn entries_map(s: Seq<ConfigEntry>) -> Map<Seq<char>, Seq<char>>
    decreases s.len(),
{
    if s.len() == 0 {
        Map::empty()
    } else {
        entries_map(s.drop_last()).insert(s.last().key@, s.last().value@)
    }
}

/// Keys are unique among the entries.
pub open spec fn entries_wf(s: Seq<ConfigEntry>) -> bool {
    forall|j: int, l: int|
        0 <= j < s.len() && 0 <= l < s.len() && j != l ==> (#[trigger] s[j].key)@ != (
        #[trigger] s[l].key)@
}

proof fn lemma_entries_absent(s: Seq<ConfigEntry>, k: Seq<char>)
    requires
        forall|i: int| 0 <= i < s.len() ==> (#[trigger] s[i].key)@ != k,
    ensures
        !entries_map(s).contains_key(k),
    decreases s.len(),
{
    if s.len() > 0 {
        lemma_entries_absent(s.drop_last(), k);
    }
}

proof fn lemma_entries_remove(s: Seq<ConfigEntry>, i: int)
    requires
        0 <= i < s.len(),
        entries_wf(s),
    ensures
        entries_map(s.remove(i)) == entries_map(s).remove(s[i].key@),
    decreases s.len(),
{
    let k = s[i].key@;
    if i == s.len() - 1 {
        assert(s.remove(i) =~= s.drop_last());
        assert(forall|j: int|
            0 <= j < s.drop_last().len() ==> (#[trigger] s.drop_last()[j].key)@ != k);
        lemma_entries_absent(s.drop_last(), k);
        assert(entries_map(s.drop_last()) =~= entries_map(s).remove(k));
    } else {
        lemma_entries_remove(s.drop_last(), i);
        assert(s.remove(i).drop_last() =~= s.drop_last().remove(i));
        assert(s.remove(i).last() == s.last());
        assert(entries_map(s.remove(i)) =~= entries_map(s).remove(k));
    }
}

fn upsert(entries: &mut Vec<ConfigEntry>, key: String, value: String)
    requires
        entries_wf(old(entries)@),
    ensures
        entries_wf(final(entries)@),
        entries_map(final(entries)@) == entries_map(old(entries)@).insert(key@, value@),
{
    let ghost orig = old(entries)@;
    let ghost k = key@;
    let ghost v = value@;
    let mut i: usize = 0;
    let n = entries.len();
    while i < n
        invariant
            n == entries@.len(),
            i <= n,
            entries@ == orig,
            orig == old(entries)@,
            entries_wf(orig),
            k == key@,
            v == value@,
            forall|j: int| 0 <= j < i ==> (#[trigger] entries@[j].key)@ != k,
        decreases n - i,
    {
        if entries[i].key == key {
            proof {
                lemma_entries_remove(orig, i as int);
            }
            entries.remove(i);
            proof {
                assert forall|j: int|
                    0 <= j < entries@.len() implies (#[trigger] entries@[j].key)@ != k by {
                    if j < i {
                        assert(entries@[j] == orig[j]);
                    } else {
                        assert(entries@[j] == orig[j + 1]);
                    }
                }
                lemma_entries_absent(entries@, k);
            }
            let ghost removed = entries@;
            entries.push(ConfigEntry { key, value });
            proof {
                assert(entries@.drop_last() =~= removed);
                assert(entries_map(entries@) == entries_map(removed).insert(k, v));
                assert(entries_map(removed) == entries_map(orig).remove(k));
                assert(entries_map(orig).remove(k).insert(k, v) =~= entries_map(orig).insert(
                    k,
                    v,
                ));
            }
            return ;
        }
        i = i + 1;
    }
    proof {
        lemma_entries_absent(entries@, k);
    }
    let ghost before = entries@;
    entries.push(ConfigEntry { key, value });
    proof {
        assert(entries@.drop_last() =~= before);
    }
}

fn is_space_char(c: char) -> (r: bool)
    ensures
        r == is_space(c),
{
    c == ' ' || c == '\t' || c == '\r' || c == '\n'
}

proof fn lemma_trim_front_skip(s: Seq<char>, a: int)
    requires
        0 <= a <= s.len(),
        forall|j: int| 0 <= j < a ==> is_space(#[trigger] s[j]),
        a == s.len() || !is_space(s[a]),
    ensures
        trim_front(s) == s.skip(a),
    decreases a,
{
    if a == 0 {
        assert(s.skip(0) =~= s);
    } else {
        lemma_trim_front_skip(s.skip(1), a - 1);
        assert(s.skip(1).skip(a - 1) =~= s.skip(a));
    }
}

proof fn lemma_trim_back_take(s: Seq<char>, b: int)
    requires
        0 <= b <= s.len(),
        forall|j: int| b <= j < s.len() ==> is_space(#[trigger] s[j]),
        b == 0 || !is_space(s[b - 1]),
    ensures
        trim_back(s) == s.take(b),
    decreases s.len(),
{
    if s.len() == b {
        assert(s.take(b) =~= s);
    } else {
        lemma_trim_back_take(s.drop_last(), b);
        assert(s.drop_last().take(b) =~= s.take(b));
    }
}

fn skip_spaces(s: &str, n: usize) -> (a: usize)
    requires
        n == s@.len(),
    ensures
        a <= n,
        forall|j: int| 0 <= j < a ==> is_space(#[trigger] s@[j]),
        a == n || !is_space(s@[a as int]),
{
    let mut a: usize = 0;
    while a < n
        invariant
            n == s@.len(),
            a <= n,
            forall|j: int| 0 <= j < a ==> is_space(#[trigger] s@[j]),
        decreases n - a,
    {
        if !is_space_char(s.get_char(a)) {
            return a;
        }
        a = a + 1;
    }
    n
}

fn rskip_spaces(s: &str, a: usize, n: usize) -> (b: usize)
    requires
        n == s@.len(),
        a <= n,
    ensures
        a <= b <= n,
        forall|j: int| b <= j < n ==> is_space(#[trigger] s@[j]),
        b == a || !is_space(s@[b - 1]),
{
    let mut b: usize = n;
    while b > a
        invariant
            n == s@.len(),
            a <= b <= n,
            forall|j: int| b <= j < n ==> is_space(#[trigger] s@[j]),
        decreases b,
    {
        if !is_space_char(s.get_char(b - 1)) {
            return b;
        }
        b = b - 1;
    }
    a
}

/// The slice without leading or trailing ASCII whitespace.
pub fn trim_str(s: &str) -> (r: &str)
    ensures
        r@ == spec_trim(s@),
{
    let n = s.unicode_len();
    let a = skip_spaces(s, n);
    proof {
        lemma_trim_front_skip(s@, a as int);
    }
    if a == n {
        let r = s.substring_char(n, n);
        proof {
            assert(r@ =~= Seq::<char>::empty());
            assert(s@.skip(n as int) =~= Seq::<char>::empty());
        }
        return r;
    }
    let b = rskip_spaces(s, a, n);
    proof {
        let t = s@.skip(a as int);
        assert(b - a == 0 || !is_space(t[b - a - 1]));
        lemma_trim_back_take(t, b - a);
        assert(t.take(b - a) =~= s@.subrange(a as int, b as int));
    }
    s.substring_char(a, b)
}

/// The key and value one line contributes, if any: the parsing rule of
/// `parse_line`, executed.
pub fn line_entry(line: &str) -> (r: Option<(String, String)>)
    ensures
        match r {
            Some(kv) => parse_line(line@) == Some((kv.0@, kv.1@)),
            None => parse_line(line@) is None,
        },
{
    let t = trim_str(line);
    let tn = t.unicode_len();
    if tn == 0 {
        return None;
    }
    if t.get_char(tn - 1) != ';' {
        return None;
    }
    let body = t.substring_char(0, tn - 1);
    proof {
        assert(body@ =~= t@.drop_last());
    }
    match find_char(body, ':', 0) {
        None => None,
        Some(k) => {
            let bn = body.unicode_len();
            let raw_key = body.substring_char(0, k);
            let raw_value = body.substring_char(k + 1, bn);
            proof {
                assert(raw_key@ =~= body@.take(k as int));
                assert(raw_value@ =~= body@.skip(k as int + 1));
            }
            let key = crate::naming::snake_to_camel(trim_str(raw_key));
            let value = trim_str(raw_value).to_owned();
            Some((key, value))
        },
    }
}

/// Reads the configuration entries out of a file's content: every
/// well-formed `key: value;` line, keys in camelCase, later lines winning.
pub fn parse_game_config(content: &str) -> (r: Vec<ConfigEntry>)
    ensures
        entries_wf(r@),
        entries_map(r@) == config_of(content@),
{
    let mut entries: Vec<ConfigEntry> = Vec::new();
    let mut rest: &str = content;
    proof {
        assert(entries_map(entries@) =~= Map::<Seq<char>, Seq<char>>::empty());
    }
    loop
        invariant
            entries_wf(entries@),
            fold_lines(entries_map(entries@), rest@) == config_of(content@),
        decreases rest@.len(),
    {
        match find_char(rest, '\n', 0) {
            Some(k) => {
                let line = rest.substring_char(0, k);
                proof {
                    assert(line@ =~= rest@.take(k as int));
                }
                match line_entry(line) {
                    Some(kv) => upsert(&mut entries, kv.0, kv.1),
                    None => (),
                }
                let rn = rest.unicode_len();
                let next = rest.substring_char(k + 1, rn);
                proof {
                    assert(next@ =~= rest@.skip(k as int + 1));
                }
                rest = next;
            },
            None => {
                match line_entry(rest) {
                    Some(kv) => upsert(&mut entries, kv.0, kv.1),
                    None => (),
                }
                return entries;
            },
        }
    }
}

/// Whether the key occurs at position `i`, matched case-insensitively and
/// followed by `:`.
pub open spec fn key_at(content: Seq<char>, key: Seq<char>, i: int) -> bool {
    &&& 0 <= i
    &&& i + key.len() + 1 <= content.len()
    &&& forall|j: int|
        0 <= j < key.len() ==> lower_char(#[trigger] content[i + j]) == lower_char(key[j])
    &&& content[i + key.len()] == ':'
}

/// Where the matched `key: ... ;` span ends: the first `;` after the colon.
pub open spec fn match_end(content: Seq<char>, key: Seq<char>, i: int) -> int {
    find_from(content, ';', i + key.len() + 1)
}

/// Whether a full `key: ... ;` span starts at position `i`.
pub open spec fn is_match_at(content: Seq<char>, key: Seq<char>, i: int) -> bool {
    key_at(content, key, i) && match_end(content, key, i) >= 0
}

/// The first position at or after `i` where a full span starts; negative
/// when there is none.
pub open spec fn first_match(content: Seq<char>, key: Seq<char>, i: int) -> int
    decreases content.len() - i,
{
    if i < 0 || i >= content.len() {
        -1
    } else if is_match_at(content, key, i) {
        i
    } else {
        first_match(content, key, i + 1)
    }
}

proof fn lemma_first_match_bounds(content: Seq<char>, key: Seq<char>, i: int)
    requires
        0 <= i,
    ensures
        first_match(content, key, i) == -1 || (i <= first_match(content, key, i) < content.len()
            && is_match_at(content, key, first_match(content, key, i))),
    decreases content.len() - i,
{
    if i >= content.len() {
    } else if is_match_at(content, key, i) {
    } else {
        lemma_first_match_bounds(content, key, i + 1);
    }
}

/// Every `key: ... ;` span replaced, left to right without overlap: the
/// key keeps its original spelling, the value is replaced.
pub open spec fn replace_spans(content: Seq<char>, key: Seq<char>, value: Seq<char>) -> Seq<char>
    decreases content.len(),
    via replace_spans_dec
{
    let i = first_match(content, key, 0);
    if i < 0 {
        content
    } else {
        let e = match_end(content, key, i);
        content.take(i) + content.subrange(i, i + key.len() as int) + seq![':', ' '] + value + seq![
            ';',
        ] + replace_spans(content.skip(e + 1), key, value)
    }
}

#[via_fn]
proof fn replace_spans_dec(content: Seq<char>, key: Seq<char>, value: Seq<char>) {
    lemma_first_match_bounds(content, key, 0);
    let i = first_match(content, key, 0);
    if i >= 0 {
        lemma_find_from_bounds(content, ';', i + key.len() + 1);
    }
}

/// The `key: value;` line appended at the end of the file, on a line of
/// its own.
pub open spec fn append_entry(content: Seq<char>, key: Seq<char>, value: Seq<char>) -> Seq<char> {
    (if content.len() > 0 && content.last() != '\n' {
        content + seq!['\n']
    } else {
        content
    }) + key + seq![':', ' '] + value + seq![';']
}

/// One caller entry written into the file: its camelCase key translated to
/// snake_case, then every matching span replaced, or the entry appended
/// when the key does not occur.
pub open spec fn upd_one(content: Seq<char>, camel_key: Seq<char>, value: Seq<char>) -> Seq<char> {
    let snake = snake_from(camel_key, true);
    if first_match(content, snake, 0) >= 0 {
        replace_spans(content, snake, value)
    } else {
        append_entry(content, snake, value)
    }
}

/// All caller entries written into the file, in order.
pub open spec fn upd_from(content: Seq<char>, entries: Seq<ConfigEntry>, i: int) -> Seq<char>
    decreases entries.len() - i,
{
    if i < 0 || i >= entries.len() {
        content
    } else {
        upd_from(upd_one(content, entries[i].key@, entries[i].value@), entries, i + 1)
    }
}

fn key_match_at(s: &str, key: &str, i: usize, n: usize, klen: usize) -> (r: bool)
    requires
        n == s@.len(),
        klen == key@.len(),
        i < n,
    ensures
        r == key_at(s@, key@, i as int),
{
    if n - i <= klen {
        return false;
    }
    let mut j: usize = 0;
    while j < klen
        invariant
            n == s@.len(),
            klen == key@.len(),
            i + klen + 1 <= n,
            j <= klen,
            forall|l: int|
                0 <= l < j ==> lower_char(#[trigger] s@[i + l]) == lower_char(key@[l]),
        decreases klen - j,
    {
        let a = crate::text::to_lower_char(s.get_char(i + j));
        let b = crate::text::to_lower_char(key.get_char(j));
        if a != b {
            return false;
        }
        j = j + 1;
    }
    s.get_char(i + klen) == ':'
}

fn find_span(s: &str, key: &str) -> (r: Option<(usize, usize)>)
    ensures
        match r {
            Some(ie) => {
                &&& first_match(s@, key@, 0) == ie.0
                &&& match_end(s@, key@, ie.0 as int) == ie.1
                &&& ie.0 < s@.len()
                &&& ie.1 < s@.len()
                &&& ie.0 + key@.len() + 1 <= ie.1
            },
            None => first_match(s@, key@, 0) == -1,
        },
{
    let n = s.unicode_len();
    let klen = key.unicode_len();
    let mut i: usize = 0;
    while i < n
        invariant
            n == s@.len(),
            klen == key@.len(),
            i <= n,
            first_match(s@, key@, 0) == first_match(s@, key@, i as int),
        decreases n - i,
    {
        if key_match_at(s, key, i, n, klen) {
            match find_char(s, ';', i + klen + 1) {
                Some(e) => {
                    return Some((i, e));
                },
                None => (),
            }
        }
        i = i + 1;
    }
    None
}

/// Writes one entry into the content: replaces every case-insensitive
/// `key: ... ;` span, keeping each occurrence's original spelling of the
/// key, or appends `key: value;` when the key does not occur. The key is
/// given in camelCase and written in snake_case.
pub fn apply_update(content: &str, camel_key: &str, value: &str) -> (r: String)
    ensures
        r@ == upd_one(content@, camel_key@, value@),
{
    let snake = crate::naming::camel_to_snake(camel_key);
    let key: &str = snake.as_str();
    match find_span(content, key) {
        None => {
            let n = content.unicode_len();
            let mut out = content.to_owned();
            if n > 0 && content.get_char(n - 1) != '\n' {
                crate::text::push_char(&mut out, '\n');
            }
            out.append(key);
            crate::text::push_char(&mut out, ':');
            crate::text::push_char(&mut out, ' ');
            out.append(value);
            crate::text::push_char(&mut out, ';');
            proof {
                assert(out@ =~= append_entry(content@, key@, value@));
            }
            out
        },
        Some(_) => {
            let mut out = String::new();
            let mut rest: &str = content;
            let klen = key.unicode_len();
            proof {
                assert(out@ + replace_spans(rest@, key@, value@) =~= replace_spans(
                    content@,
                    key@,
                    value@,
                ));
            }
            loop
                invariant
                    klen == key@.len(),
                    key@ == snake_from(camel_key@, true),
                    first_match(content@, key@, 0) >= 0,
                    replace_spans(content@, key@, value@) == out@ + replace_spans(
                        rest@,
                        key@,
                        value@,
                    ),
                decreases rest@.len(),
            {
                match find_span(rest, key) {
                    Some((i, e)) => {
                        let prefix = rest.substring_char(0, i);
                        let spelled = rest.substring_char(i, i + klen);
                        out.append(prefix);
                        out.append(spelled);
                        crate::text::push_char(&mut out, ':');
                        crate::text::push_char(&mut out, ' ');
                        out.append(value);
                        crate::text::push_char(&mut out, ';');
                        let rn = rest.unicode_len();
                        let next = rest.substring_char(e + 1, rn);
                        proof {
                            assert(next@ =~= rest@.skip(e as int + 1));
                            assert(out@ + replace_spans(next@, key@, value@) =~= replace_spans(
                                content@,
                                key@,
                                value@,
                            ));
                        }
                        rest = next;
                    },
                    None => {
                        out.append(rest);
                        proof {
                            assert(out@ =~= replace_spans(content@, key@, value@));
                            assert(key@ == snake_from(camel_key@, true));
                            assert(first_match(content@, key@, 0) >= 0);
                        }
                        return out;
                    },
                }
            }
        },
    }
}

/// Writes all caller entries into the content, in order.
pub fn update_game_config(content: &str, entries: &Vec<ConfigEntry>) -> (r: String)
    ensures
        r@ == upd_from(content@, entries@, 0),
{
    let mut cur = content.to_owned();
    let n = entries.len();
    let mut i: usize = 0;
    while i < n
        invariant
            n == entries@.len(),
            i <= n,
            upd_from(content@, entries@, 0) == upd_from(cur@, entries@, i as int),
        decreases n - i,
    {
        cur = apply_update(cur.as_str(), entries[i].key.as_str(), entries[i].value.as_str());
        i = i + 1;
    }
    cur
}

} // verus!
