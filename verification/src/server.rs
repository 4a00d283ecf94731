//! The server supervisor and the caller-facing operation set.
//!
//! `ServerState` owns the site registry, the connection hub and the runtime
//! phase of the listener. The registry and the hub live for the whole
//! process: stopping and restarting the listener — done to rebind the
//! address — leaves site registrations and connected clients untouched, and
//! already-accepted connections end on their own socket completion.
//!
//! The unverified shell performs the binds and runs the accept loop; this
//! module decides which bound address is used (primary, or the fallback
//! chosen when the requested one is occupied), forms the listen address and
//! the returned URL, and keeps the single-runtime discipline: a new runtime
//! may only be installed after the previous one has been fully retired.

use vstd::prelude::*;

use crate::errors::{AppError, DeliveryError};
use crate::hub::{
    spec_broadcast, spec_connect, spec_unicast, without_addr, has_addr, addr_index, ConnModel,
    ConnectionHub,
};
use crate::registry::{spec_register, spec_site_id, SiteRegistry};

verus! {

/// The runtime phase of the listener: stopped, or running and bound to an
/// address.
pub ghost enum PhaseModel {
    Stopped,
    Running { address: Seq<char> },
}

/// The model of the whole server: registered sites, connected clients, and
/// the listener phase.
#[verifier::ext_equal]
pub ghost struct ServerModel {
    pub sites: Map<Seq<char>, Seq<char>>,
    pub conns: Seq<ConnModel>,
    pub phase: PhaseModel,
}

/// Stopping the listener: sites and clients survive; only the phase falls
/// back to `Stopped`.
pub open spec fn spec_stop(m: ServerModel) -> ServerModel {
    ServerModel { phase: PhaseModel::Stopped, ..m }
}

/// Installing a freshly bound listener: sites and clients survive; the
/// phase records the bound address.
pub open spec fn spec_start(m: ServerModel, address: Seq<char>) -> ServerModel {
    ServerModel { phase: PhaseModel::Running { address }, ..m }
}

/// The URL under which a bound address is reported to the caller.
pub open spec fn spec_server_url(address: Seq<char>) -> Seq<char> {
    seq!['h', 't', 't', 'p', ':', '/', '/'] + address
}

/// The `host:port` text a listen attempt binds.
pub open spec fn spec_listen_address(host: Seq<char>, port: u16) -> Seq<char> {
    host + seq![':'] + crate::digits::dec_of(port as nat)
}

enum RuntimePhase {
    Stopped,
    Running { address: String },
}

/// The server: registry, hub, and listener phase. The shell holds the
/// listener task and shutdown signal for the running phase.
pub struct ServerState {
    registry: SiteRegistry,
    hub: ConnectionHub,
    phase: RuntimePhase,
}

impl View for ServerState {
    type V = ServerModel;

    closed spec fn view(&self) -> ServerModel {
        ServerModel {
            sites: self.registry@,
            conns: self.hub@,
            phase: match self.phase {
                RuntimePhase::Stopped => PhaseModel::Stopped,
                RuntimePhase::Running { address } => PhaseModel::Running { address: address@ },
            },
        }
    }
}

impl Default for ServerState {
    /// A fresh server: nothing registered, nobody connected, listener
    /// stopped.
    fn default() -> (r: ServerState)
        ensures
            r.wf(),
            r@.sites == Map::<Seq<char>, Seq<char>>::empty(),
            r@.conns == Seq::<ConnModel>::empty(),
            r@.phase == PhaseModel::Stopped,
    {
        ServerState {
            registry: SiteRegistry::new(),
            hub: ConnectionHub::new(),
            phase: RuntimePhase::Stopped,
        }
    }
}

impl ServerState {
    /// The registry and the hub are well-formed.
    pub open spec fn wf(&self) -> bool {
        &&& self.registry_wf()
        &&& self.hub_wf()
    }

    /// Well-formedness of the owned registry.
    pub closed spec fn registry_wf(&self) -> bool {
        self.registry.wf()
    }

    /// Well-formedness of the owned hub.
    pub closed spec fn hub_wf(&self) -> bool {
        self.hub.wf()
    }

    /// Whether a runtime is currently installed.
    pub fn is_running(&self) -> (r: bool)
        ensures
            r <==> self@.phase is Running,
    {
        match &self.phase {
            RuntimePhase::Stopped => false,
            RuntimePhase::Running { .. } => true,
        }
    }

    /// The bound address of the running listener, if any.
    pub fn bound_address(&self) -> (r: Option<&String>)
        ensures
            match r {
                Some(a) => self@.phase == (PhaseModel::Running { address: a@ }),
                None => self@.phase == PhaseModel::Stopped,
            },
    {
        match &self.phase {
            RuntimePhase::Stopped => None,
            RuntimePhase::Running { address } => Some(address),
        }
    }

    /// Retires any current runtime. The shell first signals the listener's
    /// shutdown and awaits the accept task; only then may the state record
    /// the stop. Idempotent when already stopped; sites and clients are
    /// deliberately left untouched.
    pub fn stop_server(&mut self)
        requires
            old(self).wf(),
        ensures
            final(self).wf(),
            final(self)@ == spec_stop(old(self)@),
    {
        self.phase = RuntimePhase::Stopped;
    }

    /// Records a freshly bound listener. Requires the previous runtime to
    /// have been fully retired first — the supervisor never holds two live
    /// runtimes — and returns the URL reported to the caller.
    pub fn complete_start(&mut self, bound_address: &str) -> (url: String)
        requires
            old(self).wf(),
            old(self)@.phase == PhaseModel::Stopped,
        ensures
            final(self).wf(),
            final(self)@ == spec_start(old(self)@, bound_address@),
            url@ == spec_server_url(bound_address@),
    {
        self.phase = RuntimePhase::Running { address: bound_address.to_owned() };
        let mut url = String::new();
        crate::text::push_char(&mut url, 'h');
        crate::text::push_char(&mut url, 't');
        crate::text::push_char(&mut url, 't');
        crate::text::push_char(&mut url, 'p');
        crate::text::push_char(&mut url, ':');
        crate::text::push_char(&mut url, '/');
        crate::text::push_char(&mut url, '/');
        url.append(bound_address);
        proof {
            assert(url@ =~= spec_server_url(bound_address@));
        }
        url
    }

    /// Registers a canonical directory path as a static site; idempotent.
    /// Returns the site identifier and whether the site is new — only then
    /// does the shell construct a directory server for it.
    pub fn add_static_site(&mut self, canonical_path: &str) -> (r: (String, bool))
        requires
            old(self).wf(),
        ensures
            final(self).wf(),
            r.0@ == spec_site_id(canonical_path@),
            final(self)@.sites == spec_register(old(self)@.sites, canonical_path@),
            final(self)@.conns == old(self)@.conns,
            final(self)@.phase == old(self)@.phase,
            r.1 <==> !old(self)@.sites.contains_key(spec_site_id(canonical_path@)),
    {
        self.registry.add(canonical_path)
    }

    /// Removes the site registered for this canonical path; removing a
    /// never-registered path is not an error.
    pub fn remove_static_site(&mut self, canonical_path: &str)
        requires
            old(self).wf(),
        ensures
            final(self).wf(),
            final(self)@.sites == old(self)@.sites.remove(spec_site_id(canonical_path@)),
            final(self)@.conns == old(self)@.conns,
            final(self)@.phase == old(self)@.phase,
    {
        self.registry.remove(canonical_path)
    }

    /// The canonical root path registered under a site identifier.
    pub fn site_root(&self, id: &String) -> (r: Option<&String>)
        requires
            self.wf(),
        ensures
            match r {
                Some(root) => self@.sites.contains_key(id@) && root@ == self@.sites[id@],
                None => !self@.sites.contains_key(id@),
            },
    {
        self.registry.lookup(id)
    }

    /// Publishes a message to every connected client. Zero connected
    /// clients is not an operational failure: the message is simply seen by
    /// nobody, and the call still succeeds.
    pub fn broadcast_message(&mut self, message: &str) -> (r: Result<(), AppError>)
        requires
            old(self).wf(),
        ensures
            final(self).wf(),
            r.is_ok(),
            final(self)@.conns == spec_broadcast(old(self)@.conns, message@),
            final(self)@.sites == old(self)@.sites,
            final(self)@.phase == old(self)@.phase,
    {
        match self.hub.broadcast(message) {
            Ok(()) => Ok(()),
            Err(DeliveryError::NoSubscribers) => Ok(()),
            Err(DeliveryError::NotFound) => Ok(()),
        }
    }

    /// Enqueues a message for exactly the client with this address; fails
    /// with a server error when no such client is connected. The state is
    /// unchanged on failure.
    pub fn unicast_message(&mut self, client_addr: &String, message: &str) -> (r: Result<
        (),
        AppError,
    >)
        requires
            old(self).wf(),
        ensures
            final(self).wf(),
            r.is_ok() <==> has_addr(old(self)@.conns, client_addr@),
            r.is_ok() ==> final(self)@.conns == spec_unicast(
                old(self)@.conns,
                client_addr@,
                message@,
            ),
            r.is_err() ==> final(self)@ == old(self)@ && (r matches Err(e) && e.is_server()),
            final(self)@.sites == old(self)@.sites,
            final(self)@.phase == old(self)@.phase,
    {
        match self.hub.unicast(client_addr, message) {
            Ok(()) => Ok(()),
            Err(_) => {
                proof {
                    assert(self@ =~~= old(self)@);
                }
                Err(AppError::Server("Client not found".to_owned()))
            },
        }
    }

    /// A snapshot of the connected clients' addresses.
    pub fn get_connected_clients(&self) -> (r: Vec<String>)
        requires
            self.wf(),
        ensures
            r@.len() == self@.conns.len(),
            forall|i: int| 0 <= i < r@.len() ==> (#[trigger] r@[i])@ == self@.conns[i].addr,
    {
        self.hub.list_connected()
    }

    /// Registers a client completing the real-time handshake.
    pub fn connect_client(&mut self, addr: &String)
        requires
            old(self).wf(),
        ensures
            final(self).wf(),
            final(self)@.conns == spec_connect(old(self)@.conns, addr@),
            final(self)@.sites == old(self)@.sites,
            final(self)@.phase == old(self)@.phase,
    {
        self.hub.connect(addr)
    }

    /// Unregisters a client whose session ended, for any reason; idempotent.
    pub fn disconnect_client(&mut self, addr: &String)
        requires
            old(self).wf(),
        ensures
            final(self).wf(),
            final(self)@.conns == without_addr(old(self)@.conns, addr@),
            final(self)@.sites == old(self)@.sites,
            final(self)@.phase == old(self)@.phase,
    {
        self.hub.disconnect(addr)
    }

    /// Takes the oldest pending broadcast message for this client, in
    /// publish order.
    pub fn pop_broadcast(&mut self, addr: &String) -> (r: Option<String>)
        requires
            old(self).wf(),
        ensures
            final(self).wf(),
            final(self)@.sites == old(self)@.sites,
            final(self)@.phase == old(self)@.phase,
            match r {
                Some(m) => {
                    &&& has_addr(old(self)@.conns, addr@)
                    &&& old(self)@.conns[addr_index(old(self)@.conns, addr@)].broadcast_queue.len()
                        > 0
                    &&& m@ == old(self)@.conns[addr_index(
                        old(self)@.conns,
                        addr@,
                    )].broadcast_queue[0]
                    &&& final(self)@.conns == old(self)@.conns.update(
                        addr_index(old(self)@.conns, addr@),
                        ConnModel {
                            broadcast_queue: old(self)@.conns[addr_index(
                                old(self)@.conns,
                                addr@,
                            )].broadcast_queue.skip(1),
                            ..old(self)@.conns[addr_index(old(self)@.conns, addr@)]
                        },
                    )
                },
                None => final(self)@ == old(self)@,
            },
    {
        self.hub.pop_broadcast(addr)
    }

    /// Takes the oldest pending unicast message for this client, in enqueue
    /// order.
    pub fn pop_unicast(&mut self, addr: &String) -> (r: Option<String>)
        requires
            old(self).wf(),
        ensures
            final(self).wf(),
            final(self)@.sites == old(self)@.sites,
            final(self)@.phase == old(self)@.phase,
            match r {
                Some(m) => {
                    &&& has_addr(old(self)@.conns, addr@)
                    &&& old(self)@.conns[addr_index(old(self)@.conns, addr@)].unicast_queue.len()
                        > 0
                    &&& m@ == old(self)@.conns[addr_index(old(self)@.conns, addr@)].unicast_queue[0]
                    &&& final(self)@.conns == old(self)@.conns.update(
                        addr_index(old(self)@.conns, addr@),
                        ConnModel {
                            unicast_queue: old(self)@.conns[addr_index(
                                old(self)@.conns,
                                addr@,
                            )].unicast_queue.skip(1),
                            ..old(self)@.conns[addr_index(old(self)@.conns, addr@)]
                        },
                    )
                },
                None => final(self)@ == old(self)@,
            },
    {
        self.hub.pop_unicast(addr)
    }
}

/// Forms the `host:port` text a listen attempt binds.
pub fn listen_address(host: &str, port: u16) -> (r: String)
    ensures
        r@ == spec_listen_address(host@, port),
{
    let mut s = host.to_owned();
    crate::text::push_char(&mut s, ':');
    let p = crate::digits::dec_string(port as u64);
    s.append(p.as_str());
    proof {
        assert(s@ =~= spec_listen_address(host@, port));
    }
    s
}

/// Decides which bound address the server runs on: the primary
/// `host:port` bind when it succeeded, otherwise the fallback bind on an
/// unused port. Failing both — or finding no fallback port at all — is
/// fatal: the server does not start.
pub fn resolve_bound(primary: Option<String>, fallback: Option<String>) -> (r: Result<
    String,
    AppError,
>)
    ensures
        match r {
            Ok(a) => ((primary matches Some(p) && a == p)) || ((primary is None
                && (fallback matches Some(f) && a == f))),
            Err(e) => primary is None && fallback is None && e.is_server(),
        },
{
    match primary {
        Some(a) => Ok(a),
        None => match fallback {
            Some(a) => Ok(a),
            None => Err(AppError::Server("no usable listen port".to_owned())),
        },
    }
}

/// Lifecycle law: starting, stopping and starting again always succeeds at
/// the state level and yields a runtime bound to the new address; sites and
/// connected clients survive the whole cycle, and between the retirement of
/// one runtime and the installation of the next the supervisor holds none.
pub proof fn lemma_restart_cycle(m: ServerModel, a1: Seq<char>, a2: Seq<char>)
    ensures
        spec_stop(spec_start(m, a1)).phase == PhaseModel::Stopped,
        spec_start(spec_stop(spec_start(m, a1)), a2).phase == (PhaseModel::Running {
            address: a2,
        }),
        spec_start(spec_stop(spec_start(m, a1)), a2).sites == m.sites,
        spec_start(spec_stop(spec_start(m, a1)), a2).conns == m.conns,
{
}

} // verus!
