use vstd::prelude::*;

use crate::config::{
    has_name, lemma_lookup_some_iff_has_name, lookup_entry, resolved, AuthInfo, Cluster,
    Kubeconfig,
};

verus! {

/// The cluster and user names a context designates: those of its entry's
/// payload, or empty names when the context is absent or carries no payload.
/// Either way resolution proceeds; absence is reported, never raised.
pub open spec fn spec_context_names(config: Kubeconfig, n: Seq<char>) -> (Seq<char>, Seq<char>) {
    match resolved(config.contexts@, n) {
        Some(c) => (c.cluster@, c.user@),
        None => (Seq::<char>::empty(), Seq::<char>::empty()),
    }
}

/// The value an optional reference points at.
pub open spec fn deref_opt<T>(o: Option<&T>) -> Option<T> {
    match o {
        Some(t) => Some(*t),
        None => None,
    }
}

/// Resolve a context name against the merged configuration: the designated
/// cluster and user names, and the records they point at. An unknown context
/// name resolves as a context with empty cluster and user names; a dangling
/// cluster or user reference resolves to `None`. Nothing here fails.
pub fn find_context<'a>(config: &'a Kubeconfig, context: &String) -> (r: (
    String,
    Option<&'a Cluster>,
    String,
    Option<&'a AuthInfo>,
))
    ensures
        r.0@ == spec_context_names(*config, context@).0,
        r.2@ == spec_context_names(*config, context@).1,
        deref_opt(r.1) == resolved(config.clusters@, r.0@),
        deref_opt(r.3) == resolved(config.auth_infos@, r.2@),
{
    let entry = lookup_entry(&config.contexts, context);
    let (cluster_name, user_name): (String, String) = match entry {
        Some(e) => match &e.value {
            Some(c) => (c.cluster.clone(), c.user.clone()),
            None => (String::new(), String::new()),
        },
        None => (String::new(), String::new()),
    };
    let cluster: Option<&Cluster> = match lookup_entry(&config.clusters, &cluster_name) {
        Some(e) => e.value.as_ref(),
        None => None,
    };
    let user: Option<&AuthInfo> = match lookup_entry(&config.auth_infos, &user_name) {
        Some(e) => e.value.as_ref(),
        None => None,
    };
    (cluster_name, cluster, user_name, user)
}

/// A dangling reference is a resolvable state, not an error: a cluster or
/// user name matching no entry resolves to `None`, and an unknown context
/// name designates empty cluster and user names (which in turn resolve to
/// `None` in a well-formed configuration that names no entry with the empty
/// string).
pub proof fn lemma_dangling_resolution(config: Kubeconfig, n: Seq<char>)
    ensures
        !has_name(config.clusters@, spec_context_names(config, n).0) ==> resolved(
            config.clusters@,
            spec_context_names(config, n).0,
        ) is None,
        !has_name(config.auth_infos@, spec_context_names(config, n).1) ==> resolved(
            config.auth_infos@,
            spec_context_names(config, n).1,
        ) is None,
        !has_name(config.contexts@, n) ==> spec_context_names(config, n) == (
            Seq::<char>::empty(),
            Seq::<char>::empty(),
        ),
{
    lemma_lookup_some_iff_has_name(config.clusters@, spec_context_names(config, n).0);
    lemma_lookup_some_iff_has_name(config.auth_infos@, spec_context_names(config, n).1);
    lemma_lookup_some_iff_has_name(config.contexts@, n);
}

} // verus!
