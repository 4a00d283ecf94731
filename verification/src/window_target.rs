//! Classification of a window's navigation target: an absolute `http(s)`
//! URL opens as an external page, anything else as an in-app route with a
//! guaranteed leading slash. The shell validates the external URL and
//! builds the window itself.

use vstd::prelude::*;

use vstd::string::StrSliceExecFns;
use vstd::string::StringExecFns;

verus! {

/// The model of a classified target.
pub ghost enum TargetModel {
    External { url: Seq<char> },
    App { route: Seq<char> },
}

/// A classified window target.
pub enum WindowTarget {
    /// An absolute URL, opened as an external page.
    External { url: String },
    /// An in-app route, always slash-led.
    App { route: String },
}

impl View for WindowTarget {
    type V = TargetModel;

    open spec fn view(&self) -> TargetModel {
        match self {
            WindowTarget::External { url } => TargetModel::External { url: url@ },
            WindowTarget::App { route } => TargetModel::App { route: route@ },
        }
    }
}

/// The scheme prefix of an insecure absolute URL.
pub open spec fn http_prefix() -> Seq<char> {
    seq!['h', 't', 't', 'p', ':', '/', '/']
}

/// The scheme prefix of a secure absolute URL.
pub open spec fn https_prefix() -> Seq<char> {
    seq!['h', 't', 't', 'p', 's', ':', '/', '/']
}

/// Whether the target names an absolute web URL.
pub open spec fn is_web_target(t: Seq<char>) -> bool {
    (t.len() >= 7 && t.take(7) == http_prefix()) || (t.len() >= 8 && t.take(8) == https_prefix())
}

/// The classification rule: a web URL stays as it is; any other target
/// becomes an in-app route, gaining a leading slash when it has none.
pub open spec fn spec_window_target(t: Seq<char>) -> TargetModel {
    if is_web_target(t) {
        TargetModel::External { url: t }
    } else if t.len() > 0 && t[0] == '/' {
        TargetModel::App { route: t }
    } else {
        TargetModel::App { route: seq!['/'] + t }
    }
}

fn has_prefix(s: &str, p: &str) -> (r: bool)
    ensures
        r <==> s@.len() >= p@.len() && s@.take(p@.len() as int) == p@,
{
    let n = s.unicode_len();
    let pn = p.unicode_len();
    if n < pn {
        return false;
    }
    let head = s.substring_char(0, pn);
    proof {
        assert(head@ =~= s@.take(pn as int));
    }
    crate::router::str_eq(head, p)
}

/// Classifies a window's navigation target.
pub fn classify_window_target(target: String) -> (r: WindowTarget)
    ensures
        r@ == spec_window_target(target@),
{
    proof {
        reveal_strlit("http://");
        reveal_strlit("https://");
        assert("http://"@ =~= http_prefix());
        assert("https://"@ =~= https_prefix());
    }
    if has_prefix(target.as_str(), "http://") || has_prefix(target.as_str(), "https://") {
        return WindowTarget::External { url: target };
    }
    let n = target.as_str().unicode_len();
    if n > 0 && target.as_str().get_char(0) == '/' {
        WindowTarget::App { route: target }
    } else {
        let mut route = String::new();
        crate::text::push_char(&mut route, '/');
        route.append(target.as_str());
        proof {
            assert(route@ =~= seq!['/'] + target@);
        }
        WindowTarget::App { route }
    }
}

} // verus!
