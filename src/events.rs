use vstd::prelude::*;

verus! {

/// An event observed on a lattice, reduced to the fields that the engine's
/// command derivation reads.
#[derive(Debug, Clone)]
pub enum Event {
    ActorStarted { image_ref: String },
    ProviderStopped { contract_id: String, link_name: String, public_key: String },
    LinkdefSet { actor_id: String, provider_id: String, contract_id: String, link_name: String },
    /// Any other kind of event, by name.
    Other { kind: String },
}

/// A command for the lattice.
#[derive(Debug, Clone)]
pub enum Command {
    StartActor { reference: String, host_id: String, count: usize },
    StopActor { actor_id: String, host_id: String, count: usize },
    StopProvider {
        provider_id: String,
        contract_id: String,
        link_name: Option<String>,
        host_id: String,
    },
    PutLinkdef {
        actor_id: String,
        provider_id: String,
        link_name: String,
        contract_id: String,
        values: Vec<(String, String)>,
    },
}

/// The number of instances that a derived start or stop command asks for.
pub const DERIVED_COUNT: usize = 2;

/// The name of the values entry that marks a link definition as derived by
/// this host.
pub open spec fn host_marker() -> Seq<char> {
    "wadm_host"@
}

/// The host id that a derived stop command for an unrecognised event names.
pub open spec fn unknown_host() -> Seq<char> {
    "notreal"@
}

/// Whether `c` is the command derived from `e` by the host `host_id`: a
/// started actor is started again on this host; a stopped provider is
/// stopped on this host under its link name; a new link definition is put
/// again, marked with this host; any other event stops an actor named after
/// this host on no real host.
pub open spec fn derived_command(e: Event, host_id: Seq<char>, c: Command) -> bool {
    match e {
        Event::ActorStarted { image_ref } => c matches Command::StartActor {
            reference,
            host_id: h,
            count,
        } && reference@ == image_ref@ && h@ == host_id && count == DERIVED_COUNT,
        Event::ProviderStopped { contract_id, link_name, public_key } => c matches Command::StopProvider {
            provider_id,
            contract_id: cid,
            link_name: ln,
            host_id: h,
        } && provider_id@ == public_key@ && cid@ == contract_id@ && (ln matches Some(l) && l@
            == link_name@) && h@ == host_id,
        Event::LinkdefSet { actor_id, provider_id, contract_id, link_name } => c matches Command::PutLinkdef {
            actor_id: a,
            provider_id: p,
            link_name: ln,
            contract_id: cid,
            values,
        } && a@ == actor_id@ && p@ == provider_id@ && ln@ == link_name@ && cid@ == contract_id@
            && values@.len() == 1 && values@[0].0@ == host_marker() && values@[0].1@ == host_id,
        Event::Other { .. } => c matches Command::StopActor { actor_id, host_id: h, count }
            && actor_id@ == host_id && h@ == unknown_host() && count == DERIVED_COUNT,
    }
}

/// The command that the host `host_id` derives from the event `e`.
pub fn derive_command(e: &Event, host_id: &str) -> (r: Command)
    ensures
        derived_command(*e, host_id@, r),
{
    match e {
        Event::ActorStarted { image_ref } => Command::StartActor {
            reference: image_ref.clone(),
            host_id: host_id.to_owned(),
            count: DERIVED_COUNT,
        },
        Event::ProviderStopped { contract_id, link_name, public_key } => Command::StopProvider {
            provider_id: public_key.clone(),
            contract_id: contract_id.clone(),
            link_name: Some(link_name.clone()),
            host_id: host_id.to_owned(),
        },
        Event::LinkdefSet { actor_id, provider_id, contract_id, link_name } => {
            let mut values: Vec<(String, String)> = Vec::new();
            values.push(("wadm_host".to_owned(), host_id.to_owned()));
            Command::PutLinkdef {
                actor_id: actor_id.clone(),
                provider_id: provider_id.clone(),
                link_name: link_name.clone(),
                contract_id: contract_id.clone(),
                values,
            }
        },
        Event::Other { .. } => Command::StopActor {
            actor_id: host_id.to_owned(),
            host_id: "notreal".to_owned(),
            count: DERIVED_COUNT,
        },
    }
}

} // verus!
