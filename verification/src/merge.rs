use vstd::prelude::*;

use crate::config::{
    has_name, lemma_lookup_at_index, lemma_lookup_some_iff_has_name, lookup, unique_names,
    AuthInfo, Cluster, ContextRef, Kubeconfig, NamedEntry,
};
use vstd::pervasive::VecAdditionalExecFns;

verus! {

/// Folding a list of sources fails only when one source is itself structurally
/// invalid (duplicate names inside one of its registries); `index` is the
/// position of the first such source.
#[derive(Clone, Copy, PartialEq, Eq, Structural, Debug)]
pub enum MergeError {
    InvalidSource { index: usize },
}

/// What a registry binds `n` to once `over` is laid over `base`: the
/// overriding registry's entry when it has one, the base's otherwise.
pub open spec fn override_lookup<T>(
    base: Seq<NamedEntry<T>>,
    over: Seq<NamedEntry<T>>,
    n: Seq<char>,
) -> Option<Option<T>> {
    match lookup(over, n) {
        Some(v) => Some(v),
        None => lookup(base, n),
    }
}

/// What the fold of a whole source list binds `n` to: the entry of the last
/// source that carries the name. Order is significant; sources run from lowest
/// to highest precedence.
pub open spec fn merged_lookup<T>(sources: Seq<Seq<NamedEntry<T>>>, n: Seq<char>) -> Option<
    Option<T>,
>
    decreases sources.len(),
{
    if sources.len() == 0 {
        None
    } else {
        match lookup(sources.last(), n) {
            Some(v) => Some(v),
            None => merged_lookup(sources.drop_last(), n),
        }
    }
}

proof fn lemma_lookup_update_other<T>(s: Seq<NamedEntry<T>>, i: int, e: NamedEntry<T>, n: Seq<char>)
    requires
        0 <= i < s.len(),
        s[i].name@ == e.name@,
        n != e.name@,
    ensures
        lookup(s.update(i, e), n) == lookup(s, n),
    decreases s.len(),
{
    if i == 0 {
        assert(s.update(0, e).drop_first() =~= s.drop_first());
    } else {
        if s[0].name@ != n {
            lemma_lookup_update_other(s.drop_first(), i - 1, e, n);
            assert(s.update(i, e).drop_first() =~= s.drop_first().update(i - 1, e));
        }
    }
}

proof fn lemma_lookup_push<T>(s: Seq<NamedEntry<T>>, e: NamedEntry<T>, n: Seq<char>)
    ensures
        lookup(s, n) is Some ==> lookup(s.push(e), n) == lookup(s, n),
        lookup(s, n) is None && e.name@ == n ==> lookup(s.push(e), n) == Some(e.value),
        lookup(s, n) is None && e.name@ != n ==> lookup(s.push(e), n) is None,
    decreases s.len(),
{
    if s.len() == 0 {
        assert(s.push(e)[0] == e);
        if e.name@ != n {
            assert(s.push(e).drop_first() =~= Seq::<NamedEntry<T>>::empty());
            assert(lookup(Seq::<NamedEntry<T>>::empty(), n) is None);
        }
    } else {
        assert(s.push(e)[0] == s[0]);
        if s[0].name@ != n {
            lemma_lookup_push(s.drop_first(), e, n);
            assert(s.push(e).drop_first() =~= s.drop_first().push(e));
        }
    }
}

/// Replace the entry named as `e` is, or append `e` when the name is new:
/// the single-entry override step.
fn upsert<T>(base: Vec<NamedEntry<T>>, e: NamedEntry<T>) -> (acc: Vec<NamedEntry<T>>)
    requires
        unique_names(base@),
    ensures
        unique_names(acc@),
        lookup(acc@, e.name@) == Some(e.value),
        forall|n: Seq<char>| n != e.name@ ==> #[trigger] lookup(acc@, n) == lookup(base@, n),
{
    let mut acc = base;
    let mut i: usize = 0;
    while i < acc.len()
        invariant
            acc@ == base@,
            unique_names(base@),
            0 <= i <= base@.len(),
            forall|k: int| 0 <= k < i ==> base@[k].name@ != e.name@,
        decreases base@.len() - i,
    {
        if acc[i].name == e.name {
            let ghost idx = i as int;
            acc.set(i, e);
            proof {
                assert(lookup(acc@, e.name@) == Some(e.value)) by {
                    assert forall|k: int| 0 <= k < idx implies acc@[k].name@ != e.name@ by {
                        assert(base@[k].name@ != base@[idx].name@);
                    }
                    lemma_lookup_at_index(acc@, e.name@, idx);
                }
                assert forall|n: Seq<char>| n != e.name@ implies #[trigger] lookup(acc@, n)
                    == lookup(base@, n) by {
                    lemma_lookup_update_other(base@, idx, e, n);
                }
                assert forall|p: int, q: int|
                    0 <= p < q < acc@.len() implies acc@[p].name@ != acc@[q].name@ by {
                    assert(base@[p].name@ != base@[q].name@);
                }
            }
            return acc;
        }
        i = i + 1;
    }
    acc.push(e);
    proof {
        assert(lookup(acc@, e.name@) == Some(e.value)) by {
            lemma_lookup_push(base@, e, e.name@);
            lemma_lookup_some_iff_has_name(base@, e.name@);
        }
        assert forall|n: Seq<char>| n != e.name@ implies #[trigger] lookup(acc@, n)
            == lookup(base@, n) by {
            lemma_lookup_push(base@, e, n);
            lemma_lookup_some_iff_has_name(base@, n);
        }
        assert forall|p: int, q: int|
            0 <= p < q < acc@.len() implies acc@[p].name@ != acc@[q].name@ by {
            if q < base@.len() {
                assert(base@[p].name@ != base@[q].name@);
            }
        }
    }
    acc
}

/// Lay `src` over `base`: on a name collision the entry of `src` replaces the
/// accumulated one in its entirety; names new in `src` are added.
fn merge_registry<T>(base: Vec<NamedEntry<T>>, src: Vec<NamedEntry<T>>) -> (acc: Vec<
    NamedEntry<T>,
>)
    requires
        unique_names(base@),
        unique_names(src@),
    ensures
        unique_names(acc@),
        forall|n: Seq<char>| #[trigger] lookup(acc@, n) == override_lookup(base@, src@, n),
{
    let ghost base0 = base@;
    let ghost all = src@;
    let mut acc = base;
    let mut rest = src;
    while rest.len() > 0
        invariant
            unique_names(acc@),
            unique_names(rest@),
            forall|n: Seq<char>| #[trigger]
                override_lookup(acc@, rest@, n) == override_lookup(base0, all, n),
        decreases rest@.len(),
    {
        let ghost before = rest@;
        let ghost acc_before = acc@;
        let e = rest.remove(0);
        proof {
            assert(rest@ =~= before.drop_first());
            assert forall|p: int, q: int|
                0 <= p < q < rest@.len() implies rest@[p].name@ != rest@[q].name@ by {
                assert(before[p + 1].name@ != before[q + 1].name@);
            }
        }
        acc = upsert(acc, e);
        proof {
            assert forall|n: Seq<char>| #[trigger]
                override_lookup(acc@, rest@, n) == override_lookup(base0, all, n) by {
                if n == e.name@ {
                    // the remaining entries cannot carry e's name again
                    lemma_lookup_some_iff_has_name(rest@, n);
                    if has_name(rest@, n) {
                        let j = choose|j: int| 0 <= j < rest@.len() && rest@[j].name@ == n;
                        assert(before[0].name@ == before[j + 1].name@);
                        assert(false);
                    }
                    assert(lookup(before, n) == Some(e.value));
                    assert(override_lookup(acc_before, before, n) == Some(e.value));
                } else {
                    assert(lookup(before, n) == lookup(rest@, n));
                    assert(override_lookup(acc_before, before, n) == override_lookup(
                        acc@,
                        rest@,
                        n,
                    ));
                }
            }
        }
    }
    proof {
        assert forall|n: Seq<char>| #[trigger]
            lookup(acc@, n) == override_lookup(base0, all, n) by {
            assert(override_lookup(acc@, rest@, n) == override_lookup(base0, all, n));
            assert(lookup(rest@, n) is None);
        }
    }
    acc
}

proof fn lemma_merged_lookup_push<T>(
    ms: Seq<Seq<NamedEntry<T>>>,
    s: Seq<NamedEntry<T>>,
    n: Seq<char>,
)
    ensures
        merged_lookup(ms.push(s), n) == (match lookup(s, n) {
            Some(v) => Some(v),
            None => merged_lookup(ms, n),
        }),
{
    assert(ms.push(s).last() == s);
    assert(ms.push(s).drop_last() =~= ms);
}

/// Fold the sources left to right into one effective configuration: for each
/// registry, a later source's entry replaces an earlier one with the same
/// name in its entirety. An empty source list yields the empty (and valid)
/// configuration. Fails exactly when a source is structurally invalid, naming
/// the first such source.
pub fn merge_kubeconfigs(sources: Vec<Kubeconfig>) -> (r: Result<Kubeconfig, MergeError>)
    ensures
        match r {
            Ok(m) => {
                &&& forall|i: int| 0 <= i < sources@.len() ==> (#[trigger] sources@[i]).wf()
                &&& m.wf()
                &&& forall|n: Seq<char>| #[trigger]
                    lookup(m.contexts@, n) == merged_lookup(
                        sources@.map_values(|c: Kubeconfig| c.contexts@),
                        n,
                    )
                &&& forall|n: Seq<char>| #[trigger]
                    lookup(m.clusters@, n) == merged_lookup(
                        sources@.map_values(|c: Kubeconfig| c.clusters@),
                        n,
                    )
                &&& forall|n: Seq<char>| #[trigger]
                    lookup(m.auth_infos@, n) == merged_lookup(
                        sources@.map_values(|c: Kubeconfig| c.auth_infos@),
                        n,
                    )
            },
            Err(MergeError::InvalidSource { index }) => {
                &&& 0 <= index < sources@.len()
                &&& !sources@[index as int].wf()
                &&& forall|k: int| 0 <= k < index ==> (#[trigger] sources@[k]).wf()
            },
        },
{
    let mut i: usize = 0;
    while i < sources.len()
        invariant
            0 <= i <= sources@.len(),
            forall|k: int| 0 <= k < i ==> (#[trigger] sources@[k]).wf(),
        decreases sources@.len() - i,
    {
        if !sources[i].is_well_formed() {
            return Err(MergeError::InvalidSource { index: i });
        }
        i = i + 1;
    }

    let ghost all = sources@;
    let mut contexts: Vec<NamedEntry<ContextRef>> = Vec::new();
    let mut clusters: Vec<NamedEntry<Cluster>> = Vec::new();
    let mut auth_infos: Vec<NamedEntry<AuthInfo>> = Vec::new();
    let mut rest = sources;
    while rest.len() > 0
        invariant
            forall|k: int| 0 <= k < all.len() ==> (#[trigger] all[k]).wf(),
            rest@.len() <= all.len(),
            rest@ =~= all.subrange(all.len() - rest@.len(), all.len() as int),
            unique_names(contexts@),
            unique_names(clusters@),
            unique_names(auth_infos@),
            forall|n: Seq<char>| #[trigger]
                lookup(contexts@, n) == merged_lookup(
                    all.subrange(0, all.len() - rest@.len()).map_values(
                        |c: Kubeconfig| c.contexts@,
                    ),
                    n,
                ),
            forall|n: Seq<char>| #[trigger]
                lookup(clusters@, n) == merged_lookup(
                    all.subrange(0, all.len() - rest@.len()).map_values(
                        |c: Kubeconfig| c.clusters@,
                    ),
                    n,
                ),
            forall|n: Seq<char>| #[trigger]
                lookup(auth_infos@, n) == merged_lookup(
                    all.subrange(0, all.len() - rest@.len()).map_values(
                        |c: Kubeconfig| c.auth_infos@,
                    ),
                    n,
                ),
        decreases rest@.len(),
    {
        let ghost done = all.subrange(0, all.len() - rest@.len());
        let ghost before = rest@;
        let cfg = rest.remove(0);
        proof {
            assert(cfg == all[done.len() as int]);
            assert(cfg.wf());
            assert(rest@ =~= all.subrange(all.len() - rest@.len(), all.len() as int));
        }
        let Kubeconfig { contexts: src_ctx, clusters: src_cl, auth_infos: src_ai } = cfg;
        contexts = merge_registry(contexts, src_ctx);
        clusters = merge_registry(clusters, src_cl);
        auth_infos = merge_registry(auth_infos, src_ai);
        proof {
            let done2 = all.subrange(0, all.len() - rest@.len());
            assert(done2 =~= done.push(cfg));
            assert(done2.map_values(|c: Kubeconfig| c.contexts@) =~= done.map_values(
                |c: Kubeconfig| c.contexts@,
            ).push(cfg.contexts@));
            assert(done2.map_values(|c: Kubeconfig| c.clusters@) =~= done.map_values(
                |c: Kubeconfig| c.clusters@,
            ).push(cfg.clusters@));
            assert(done2.map_values(|c: Kubeconfig| c.auth_infos@) =~= done.map_values(
                |c: Kubeconfig| c.auth_infos@,
            ).push(cfg.auth_infos@));
            assert forall|n: Seq<char>| #[trigger]
                lookup(contexts@, n) == merged_lookup(
                    done2.map_values(|c: Kubeconfig| c.contexts@),
                    n,
                ) by {
                lemma_merged_lookup_push(
                    done.map_values(|c: Kubeconfig| c.contexts@),
                    cfg.contexts@,
                    n,
                );
            }
            assert forall|n: Seq<char>| #[trigger]
                lookup(clusters@, n) == merged_lookup(
                    done2.map_values(|c: Kubeconfig| c.clusters@),
                    n,
                ) by {
                lemma_merged_lookup_push(
                    done.map_values(|c: Kubeconfig| c.clusters@),
                    cfg.clusters@,
                    n,
                );
            }
            assert forall|n: Seq<char>| #[trigger]
                lookup(auth_infos@, n) == merged_lookup(
                    done2.map_values(|c: Kubeconfig| c.auth_infos@),
                    n,
                ) by {
                lemma_merged_lookup_push(
                    done.map_values(|c: Kubeconfig| c.auth_infos@),
                    cfg.auth_infos@,
                    n,
                );
            }
        }
    }
    proof {
        assert(all.subrange(0, all.len() as int) =~= all);
        assert(all.subrange(0, all.len() - rest@.len()) =~= all);
    }
    Ok(Kubeconfig { contexts, clusters, auth_infos })
}

/// Merging is order-sensitive: whichever source stands in the overriding
/// (later) position supplies the entry for a name both sources define.
pub proof fn lemma_merge_order_sensitive<T>(
    a: Seq<NamedEntry<T>>,
    b: Seq<NamedEntry<T>>,
    n: Seq<char>,
)
    requires
        has_name(a, n),
        has_name(b, n),
    ensures
        merged_lookup(seq![a, b], n) == lookup(b, n),
        merged_lookup(seq![b, a], n) == lookup(a, n),
{
    lemma_lookup_some_iff_has_name(a, n);
    lemma_lookup_some_iff_has_name(b, n);
    assert(seq![a, b].last() == b);
    assert(seq![b, a].last() == a);
}

} // verus!
