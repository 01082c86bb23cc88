//! Algorithm preferences of a session: which negotiation calls are made, in
//! which order, before the handshake, and the calls themselves.
use ssh2::Session;
use vstd::prelude::*;

use crate::config::HostParameters;
use crate::options::{comma_joined, join_commas, string_views, KeyMethod, KeyMethodView, MethodType};

verus! {

#[verifier::external_type_specification]
#[verifier::external_body]
pub struct ExSession(Session);

#[verifier::external_type_specification]
#[verifier::external_body]
pub struct ExSshError(ssh2::Error);

/// Relies on `Session::method_pref`: sets the preferred algorithms of one
/// category, replacing what was set before. It fails on lists that libssh2
/// does not accept, which is not stated here.
#[verifier::external_body]
pub(crate) fn session_method_pref(session: &mut Session, method: MethodType, prefs: &str) -> Result<(), ssh2::Error> {
    let method = match method {
        MethodType::CryptClientServer => ssh2::MethodType::CryptCs,
        MethodType::CryptServerClient => ssh2::MethodType::CryptSc,
        MethodType::HostKey => ssh2::MethodType::HostKey,
        MethodType::Kex => ssh2::MethodType::Kex,
        MethodType::MacClientServer => ssh2::MethodType::MacCs,
        MethodType::MacServerClient => ssh2::MethodType::MacSc,
    };
    session.method_pref(method, prefs)
}

/// Relies on `Session::set_compress`: asks for compression, or not.
#[verifier::external_body]
pub(crate) fn session_set_compress(session: &mut Session, compress: bool) {
    session.set_compress(compress)
}

/// Relies on `Display` for `ssh2::Error`: a description of the error.
#[verifier::external_body]
pub(crate) fn ssh_error_text(e: &ssh2::Error) -> String {
    e.to_string()
}

/// One negotiation call: a category and its comma-joined algorithms.
pub type Pref = (MethodType, String);

pub open spec fn pref_views(s: Seq<Pref>) -> Seq<(MethodType, Seq<char>)> {
    s.map_values(|p: Pref| (p.0, p.1@))
}

/// The call for an optional algorithm list of the configuration.
pub open spec fn list_prefs(method: MethodType, algos: Option<Vec<String>>) -> Seq<(MethodType, Seq<char>)> {
    match algos {
        Some(a) => seq![(method, comma_joined(string_views(a@)))],
        None => Seq::empty(),
    }
}

/// The calls for an optional list that applies to both directions.
pub open spec fn both_directions(
    client_server: MethodType,
    server_client: MethodType,
    algos: Option<Vec<String>>,
) -> Seq<(MethodType, Seq<char>)> {
    list_prefs(client_server, algos) + list_prefs(server_client, algos)
}

/// The calls for the caller's own methods, in the order they were added.
pub open spec fn method_prefs(methods: Seq<KeyMethodView>) -> Seq<(MethodType, Seq<char>)> {
    methods.map_values(|m: KeyMethodView| (m.method_type, comma_joined(m.algos)))
}

/// The negotiation calls made before the handshake, in order: key exchange,
/// host key, ciphers and MACs (each in both directions) from the
/// configuration, then the caller's methods, so that these win.
pub open spec fn pref_plan(p: HostParameters, methods: Seq<KeyMethodView>) -> Seq<(MethodType, Seq<char>)> {
    list_prefs(MethodType::Kex, p.kex_algorithms)
        + list_prefs(MethodType::HostKey, p.host_key_algorithms)
        + both_directions(MethodType::CryptClientServer, MethodType::CryptServerClient, p.ciphers)
        + both_directions(MethodType::MacClientServer, MethodType::MacServerClient, p.mac)
        + method_prefs(methods)
}

fn push_list(plan: &mut Vec<Pref>, method: MethodType, algos: &Option<Vec<String>>)
    ensures
        pref_views(final(plan)@) == pref_views(old(plan)@) + list_prefs(method, *algos),
{
    match algos {
        Some(a) => {
            let joined = join_commas(a);
            let ghost before = plan@;
            plan.push((method, joined));
            assert(pref_views(plan@) =~= pref_views(before) + list_prefs(method, *algos));
        },
        None => {
            assert(pref_views(plan@) =~= pref_views(plan@) + list_prefs(method, *algos));
        },
    }
}

/// The negotiation calls for `params` and the caller's `methods`, in the
/// order they are to be made.
pub fn algo_prefs(params: &HostParameters, methods: &Vec<KeyMethod>) -> (r: Vec<Pref>)
    ensures
        pref_views(r@) == pref_plan(*params, methods@.map_values(|m: KeyMethod| m@)),
{
    let mut plan: Vec<Pref> = Vec::new();
    push_list(&mut plan, MethodType::Kex, &params.kex_algorithms);
    push_list(&mut plan, MethodType::HostKey, &params.host_key_algorithms);
    push_list(&mut plan, MethodType::CryptClientServer, &params.ciphers);
    push_list(&mut plan, MethodType::CryptServerClient, &params.ciphers);
    push_list(&mut plan, MethodType::MacClientServer, &params.mac);
    push_list(&mut plan, MethodType::MacServerClient, &params.mac);
    let ghost config_part = pref_views(plan@);
    let ghost views = methods@.map_values(|m: KeyMethod| m@);
    let mut i: usize = 0;
    while i < methods.len()
        invariant
            i <= methods@.len(),
            views == methods@.map_values(|m: KeyMethod| m@),
            pref_views(plan@) == config_part + method_prefs(views.take(i as int)),
        decreases methods@.len() - i,
    {
        let m = &methods[i];
        let prefs = m.prefs();
        let ghost before = plan@;
        plan.push((m.method_type(), prefs));
        proof {
            assert(views[i as int] == m@);
            assert(views.take(i + 1) =~= views.take(i as int).push(m@));
            assert(method_prefs(views.take(i + 1)) =~= method_prefs(views.take(i as int)).push(
                (m@.method_type, comma_joined(m@.algos)),
            ));
            assert(pref_views(plan@) =~= pref_views(before).push((m@.method_type, prefs@)));
        }
        i += 1;
    }
    proof {
        assert(views.take(methods@.len() as int) =~= views);
        let p = *params;
        assert(pref_plan(p, views) =~= list_prefs(MethodType::Kex, p.kex_algorithms)
            + list_prefs(MethodType::HostKey, p.host_key_algorithms)
            + list_prefs(MethodType::CryptClientServer, p.ciphers)
            + list_prefs(MethodType::CryptServerClient, p.ciphers)
            + list_prefs(MethodType::MacClientServer, p.mac)
            + list_prefs(MethodType::MacServerClient, p.mac)
            + method_prefs(views));
    }
    plan
}

} // verus!
