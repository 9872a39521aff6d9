use vstd::prelude::*;

use crate::config::{has_name, unique_names, Kubeconfig, NamedEntry};

verus! {

/// Which of the three registries a duplicated name was found in.
#[derive(Clone, Copy, PartialEq, Eq, Structural, Debug)]
pub enum DupKind {
    Context,
    Cluster,
    User,
}

/// One report of a name that an earlier source had already introduced.
#[derive(Clone, PartialEq, Eq, Debug)]
pub struct Duplicate {
    pub kind: DupKind,
    pub name: String,
}

/// How many entries of one registry carry the name `n`.
pub open spec fn count_in<T>(s: Seq<NamedEntry<T>>, n: Seq<char>) -> nat
    decreases s.len(),
{
    if s.len() == 0 {
        0
    } else {
        (if s[0].name@ == n {
            1nat
        } else {
            0nat
        }) + count_in(s.drop_first(), n)
    }
}

/// How many entries across a list of registries carry the name `n`.
pub open spec fn occurrences<T>(regs: Seq<Seq<NamedEntry<T>>>, n: Seq<char>) -> nat
    decreases regs.len(),
{
    if regs.len() == 0 {
        0
    } else {
        count_in(regs[0], n) + occurrences(regs.drop_first(), n)
    }
}

/// Whether any registry in the list carries the name `n`.
pub open spec fn any_has_name<T>(regs: Seq<Seq<NamedEntry<T>>>, n: Seq<char>) -> bool {
    exists|j: int| 0 <= j < regs.len() && has_name(regs[j], n)
}

/// Every occurrence after the first is a duplicate: a name occurring `occ`
/// times is reported `occ - 1` times, a name never occurring is not reported.
pub open spec fn expected_dups(occ: nat) -> nat {
    if occ > 0 {
        (occ - 1) as nat
    } else {
        0
    }
}

/// Whether the running list of already-seen names contains `n`.
pub open spec fn seen_contains(seen: Seq<String>, n: Seq<char>) -> bool {
    exists|i: int| 0 <= i < seen.len() && seen[i]@ == n
}

pub open spec fn seen_set(seen: Seq<String>) -> Set<Seq<char>> {
    Set::new(|n: Seq<char>| seen_contains(seen, n))
}

/// How many duplicates a first-occurrence scan of `reg` reports for the name
/// `n`, when the names in `seen` have already been introduced by earlier
/// entries.
pub open spec fn dups_from<T>(reg: Seq<NamedEntry<T>>, seen: Set<Seq<char>>, n: Seq<char>) -> nat
    decreases reg.len(),
{
    if reg.len() == 0 {
        0
    } else {
        (if reg[0].name@ == n && seen.contains(n) {
            1nat
        } else {
            0nat
        }) + dups_from(reg.drop_first(), seen.insert(reg[0].name@), n)
    }
}

/// How many reports for kind `k` and name `n` a duplicate list holds.
pub open spec fn dup_count(d: Seq<Duplicate>, k: DupKind, n: Seq<char>) -> nat
    decreases d.len(),
{
    if d.len() == 0 {
        0
    } else {
        dup_count(d.drop_last(), k, n) + (if d.last().kind == k && d.last().name@ == n {
            1nat
        } else {
            0nat
        })
    }
}

proof fn lemma_has_name_unfold<T>(s: Seq<NamedEntry<T>>, n: Seq<char>)
    requires
        s.len() > 0,
    ensures
        has_name(s, n) == (s[0].name@ == n || has_name(s.drop_first(), n)),
{
    if has_name(s, n) {
        let i = choose|i: int| 0 <= i < s.len() && s[i].name@ == n;
        if i > 0 {
            assert(s.drop_first()[i - 1].name@ == n);
        }
    }
    if has_name(s.drop_first(), n) {
        let i = choose|i: int| 0 <= i < s.drop_first().len() && s.drop_first()[i].name@ == n;
        assert(s[i + 1].name@ == n);
    }
}

proof fn lemma_has_name_push<T>(s: Seq<NamedEntry<T>>, e: NamedEntry<T>, n: Seq<char>)
    ensures
        has_name(s.push(e), n) == (has_name(s, n) || e.name@ == n),
{
    if has_name(s.push(e), n) {
        let i = choose|i: int| 0 <= i < s.push(e).len() && s.push(e)[i].name@ == n;
        if i < s.len() {
            assert(s[i].name@ == n);
        }
    }
    if has_name(s, n) {
        let i = choose|i: int| 0 <= i < s.len() && s[i].name@ == n;
        assert(s.push(e)[i].name@ == n);
    }
    if e.name@ == n {
        assert(s.push(e)[s.len() as int].name@ == n);
    }
}

proof fn lemma_seen_push(seen: Seq<String>, s: String, n: Seq<char>)
    ensures
        seen_contains(seen.push(s), n) == (seen_contains(seen, n) || s@ == n),
{
    if seen_contains(seen.push(s), n) {
        let i = choose|i: int| 0 <= i < seen.push(s).len() && seen.push(s)[i]@ == n;
        if i < seen.len() {
            assert(seen[i]@ == n);
        }
    }
    if seen_contains(seen, n) {
        let i = choose|i: int| 0 <= i < seen.len() && seen[i]@ == n;
        assert(seen.push(s)[i]@ == n);
    }
    if s@ == n {
        assert(seen.push(s)[seen.len() as int]@ == n);
    }
}

proof fn lemma_count_in_pos<T>(s: Seq<NamedEntry<T>>, n: Seq<char>)
    ensures
        (count_in(s, n) > 0) == has_name(s, n),
    decreases s.len(),
{
    if s.len() == 0 {
        assert(!has_name(s, n));
    } else {
        lemma_count_in_pos(s.drop_first(), n);
        lemma_has_name_unfold(s, n);
    }
}

proof fn lemma_occurrences_push<T>(regs: Seq<Seq<NamedEntry<T>>>, r: Seq<NamedEntry<T>>, n: Seq<char>)
    ensures
        occurrences(regs.push(r), n) == occurrences(regs, n) + count_in(r, n),
    decreases regs.len(),
{
    if regs.len() == 0 {
        assert(regs.push(r)[0] == r);
        assert(regs.push(r).drop_first() =~= Seq::<Seq<NamedEntry<T>>>::empty());
        assert(occurrences(Seq::<Seq<NamedEntry<T>>>::empty(), n) == 0);
    } else {
        assert(regs.push(r)[0] == regs[0]);
        lemma_occurrences_push(regs.drop_first(), r, n);
        assert(regs.push(r).drop_first() =~= regs.drop_first().push(r));
    }
}

proof fn lemma_any_has_name_push<T>(regs: Seq<Seq<NamedEntry<T>>>, r: Seq<NamedEntry<T>>, n: Seq<char>)
    ensures
        any_has_name(regs.push(r), n) == (any_has_name(regs, n) || has_name(r, n)),
{
    if any_has_name(regs.push(r), n) {
        let j = choose|j: int| 0 <= j < regs.push(r).len() && has_name(regs.push(r)[j], n);
        if j < regs.len() {
            assert(has_name(regs[j], n));
        }
    }
    if any_has_name(regs, n) {
        let j = choose|j: int| 0 <= j < regs.len() && has_name(regs[j], n);
        assert(has_name(regs.push(r)[j], n));
    }
    if has_name(r, n) {
        assert(has_name(regs.push(r)[regs.len() as int], n));
    }
}

proof fn lemma_occurrences_pos<T>(regs: Seq<Seq<NamedEntry<T>>>, n: Seq<char>)
    ensures
        (occurrences(regs, n) > 0) == any_has_name(regs, n),
    decreases regs.len(),
{
    if regs.len() == 0 {
        assert(!any_has_name(regs, n));
    } else {
        lemma_occurrences_pos(regs.drop_first(), n);
        lemma_count_in_pos(regs[0], n);
        if any_has_name(regs, n) {
            let j = choose|j: int| 0 <= j < regs.len() && has_name(regs[j], n);
            if j > 0 {
                assert(has_name(regs.drop_first()[j - 1], n));
            }
        }
        if any_has_name(regs.drop_first(), n) {
            let j = choose|j: int|
                0 <= j < regs.drop_first().len() && has_name(regs.drop_first()[j], n);
            assert(has_name(regs[j + 1], n));
        }
    }
}

/// What a first-occurrence scan reports: every occurrence of a name already
/// seen, and every occurrence but the first of a name not yet seen.
proof fn lemma_dups_from_value<T>(reg: Seq<NamedEntry<T>>, seen: Set<Seq<char>>, n: Seq<char>)
    ensures
        dups_from(reg, seen, n) == (if seen.contains(n) {
            count_in(reg, n)
        } else {
            expected_dups(count_in(reg, n))
        }),
    decreases reg.len(),
{
    if reg.len() > 0 {
        let hd = reg[0].name@;
        lemma_dups_from_value(reg.drop_first(), seen.insert(hd), n);
        lemma_count_in_pos(reg.drop_first(), n);
    }
}

/// Whether the running list of seen names contains `n`.
fn contains_name(seen: &Vec<String>, n: &String) -> (b: bool)
    ensures
        b == seen_contains(seen@, n@),
{
    let mut i: usize = 0;
    while i < seen.len()
        invariant
            0 <= i <= seen@.len(),
            forall|k: int| 0 <= k < i ==> seen@[k]@ != n@,
        decreases seen@.len() - i,
    {
        if seen[i] == *n {
            return true;
        }
        i = i + 1;
    }
    false
}

/// Scan one registry in entry order against the names already seen: an entry
/// whose name was seen is reported as a duplicate of kind `k`; a new name is
/// added to the seen list.
fn scan_registry<T>(
    reg: &Vec<NamedEntry<T>>,
    k: DupKind,
    seen0: Vec<String>,
    out0: Vec<Duplicate>,
) -> (r: (Vec<String>, Vec<Duplicate>))
    ensures
        forall|n: Seq<char>| #[trigger]
            seen_contains(r.0@, n) == (seen_contains(seen0@, n) || has_name(reg@, n)),
        forall|n: Seq<char>| #[trigger]
            dup_count(r.1@, k, n) == dup_count(out0@, k, n) + dups_from(
                reg@,
                seen_set(seen0@),
                n,
            ),
        forall|k2: DupKind, n: Seq<char>|
            k2 != k ==> #[trigger] dup_count(r.1@, k2, n) == dup_count(out0@, k2, n),
{
    let mut seen = seen0;
    let mut out = out0;
    let mut j: usize = 0;
    proof {
        assert(reg@.skip(0) =~= reg@);
    }
    while j < reg.len()
        invariant
            0 <= j <= reg@.len(),
            forall|n: Seq<char>| #[trigger]
                seen_contains(seen@, n) == (seen_contains(seen0@, n) || has_name(
                    reg@.take(j as int),
                    n,
                )),
            forall|n: Seq<char>| #[trigger]
                dup_count(out@, k, n) + dups_from(reg@.skip(j as int), seen_set(seen@), n)
                    == dup_count(out0@, k, n) + dups_from(reg@, seen_set(seen0@), n),
            forall|k2: DupKind, n: Seq<char>|
                k2 != k ==> #[trigger] dup_count(out@, k2, n) == dup_count(out0@, k2, n),
        decreases reg@.len() - j,
    {
        let ghost seen_pre = seen@;
        let ghost out_pre = out@;
        let ghost jj = j as int;
        let ghost hd = reg@[jj].name@;
        proof {
            assert(reg@.skip(jj)[0] == reg@[jj]);
            assert(reg@.skip(jj).drop_first() =~= reg@.skip(jj + 1));
            assert(reg@.take(jj + 1) =~= reg@.take(jj).push(reg@[jj]));
        }
        let already = contains_name(&seen, &reg[j].name);
        if already {
            out.push(Duplicate { kind: k, name: reg[j].name.clone() });
            proof {
                assert(out@.drop_last() =~= out_pre);
                assert(out@.last().name@ == hd);
                assert(seen_set(seen_pre).insert(hd) =~= seen_set(seen_pre));
                assert forall|n: Seq<char>| #[trigger]
                    dup_count(out@, k, n) + dups_from(reg@.skip(jj + 1), seen_set(seen@), n)
                        == dup_count(out0@, k, n) + dups_from(reg@, seen_set(seen0@), n) by {
                    assert(dup_count(out@, k, n) == dup_count(out_pre, k, n) + (if n == hd {
                        1nat
                    } else {
                        0nat
                    }));
                    assert(dups_from(reg@.skip(jj), seen_set(seen_pre), n) == (if hd == n
                        && seen_set(seen_pre).contains(n) {
                        1nat
                    } else {
                        0nat
                    }) + dups_from(reg@.skip(jj + 1), seen_set(seen_pre), n));
                }
                assert forall|k2: DupKind, n: Seq<char>|
                    k2 != k implies #[trigger] dup_count(out@, k2, n) == dup_count(
                    out0@,
                    k2,
                    n,
                ) by {
                    assert(dup_count(out@, k2, n) == dup_count(out_pre, k2, n));
                }
                assert forall|n: Seq<char>| #[trigger]
                    seen_contains(seen@, n) == (seen_contains(seen0@, n) || has_name(
                        reg@.take(jj + 1),
                        n,
                    )) by {
                    lemma_has_name_push(reg@.take(jj), reg@[jj], n);
                    if n == hd {
                        assert(seen_contains(seen@, hd));
                    }
                }
            }
        } else {
            seen.push(reg[j].name.clone());
            proof {
                assert(seen@.drop_last() =~= seen_pre);
                assert(seen@ =~= seen_pre.push(seen@.last()));
                assert(seen@.last()@ == hd);
                assert forall|n: Seq<char>| #[trigger]
                    seen_contains(seen@, n) == (seen_contains(seen_pre, n) || hd == n) by {
                    lemma_seen_push(seen_pre, seen@.last(), n);
                }
                assert(seen_set(seen@) =~= seen_set(seen_pre).insert(hd));
                assert forall|n: Seq<char>| #[trigger]
                    dup_count(out@, k, n) + dups_from(reg@.skip(jj + 1), seen_set(seen@), n)
                        == dup_count(out0@, k, n) + dups_from(reg@, seen_set(seen0@), n) by {
                    assert(!seen_set(seen_pre).contains(hd));
                    assert(dups_from(reg@.skip(jj), seen_set(seen_pre), n) == dups_from(
                        reg@.skip(jj + 1),
                        seen_set(seen_pre).insert(hd),
                        n,
                    ));
                }
                assert forall|n: Seq<char>| #[trigger]
                    seen_contains(seen@, n) == (seen_contains(seen0@, n) || has_name(
                        reg@.take(jj + 1),
                        n,
                    )) by {
                    lemma_has_name_push(reg@.take(jj), reg@[jj], n);
                }
            }
        }
        j = j + 1;
    }
    proof {
        assert(reg@.take(reg@.len() as int) =~= reg@);
        assert(reg@.skip(reg@.len() as int) =~= Seq::<NamedEntry<T>>::empty());
        assert forall|n: Seq<char>| #[trigger]
            dup_count(out@, k, n) == dup_count(out0@, k, n) + dups_from(
                reg@,
                seen_set(seen0@),
                n,
            ) by {
            assert(dups_from(reg@.skip(reg@.len() as int), seen_set(seen@), n) == 0);
        }
    }
    (seen, out)
}

/// Scan all sources in input order, each source's contexts, clusters and
/// users in turn, reporting every entry whose name an earlier entry of the
/// same kind (in this or an earlier source) already introduced. A name
/// occurring `occ` times in total is reported `occ - 1` times; detection runs
/// on the pre-merge list so that every override the merge will perform
/// silently is visible as a duplicate.
pub fn find_duplicates(cfgs: &Vec<Kubeconfig>) -> (d: Vec<Duplicate>)
    ensures
        forall|n: Seq<char>| #[trigger]
            dup_count(d@, DupKind::Context, n) == expected_dups(
                occurrences(cfgs@.map_values(|c: Kubeconfig| c.contexts@), n),
            ),
        forall|n: Seq<char>| #[trigger]
            dup_count(d@, DupKind::Cluster, n) == expected_dups(
                occurrences(cfgs@.map_values(|c: Kubeconfig| c.clusters@), n),
            ),
        forall|n: Seq<char>| #[trigger]
            dup_count(d@, DupKind::User, n) == expected_dups(
                occurrences(cfgs@.map_values(|c: Kubeconfig| c.auth_infos@), n),
            ),
{
    let mut seen_ctx: Vec<String> = Vec::new();
    let mut seen_cl: Vec<String> = Vec::new();
    let mut seen_us: Vec<String> = Vec::new();
    let mut out: Vec<Duplicate> = Vec::new();
    let mut i: usize = 0;
    while i < cfgs.len()
        invariant
            0 <= i <= cfgs@.len(),
            forall|n: Seq<char>| #[trigger]
                seen_contains(seen_ctx@, n) == any_has_name(
                    cfgs@.take(i as int).map_values(|c: Kubeconfig| c.contexts@),
                    n,
                ),
            forall|n: Seq<char>| #[trigger]
                seen_contains(seen_cl@, n) == any_has_name(
                    cfgs@.take(i as int).map_values(|c: Kubeconfig| c.clusters@),
                    n,
                ),
            forall|n: Seq<char>| #[trigger]
                seen_contains(seen_us@, n) == any_has_name(
                    cfgs@.take(i as int).map_values(|c: Kubeconfig| c.auth_infos@),
                    n,
                ),
            forall|n: Seq<char>| #[trigger]
                dup_count(out@, DupKind::Context, n) == expected_dups(
                    occurrences(cfgs@.take(i as int).map_values(|c: Kubeconfig| c.contexts@), n),
                ),
            forall|n: Seq<char>| #[trigger]
                dup_count(out@, DupKind::Cluster, n) == expected_dups(
                    occurrences(cfgs@.take(i as int).map_values(|c: Kubeconfig| c.clusters@), n),
                ),
            forall|n: Seq<char>| #[trigger]
                dup_count(out@, DupKind::User, n) == expected_dups(
                    occurrences(cfgs@.take(i as int).map_values(|c: Kubeconfig| c.auth_infos@), n),
                ),
        decreases cfgs@.len() - i,
    {
        let ghost ii = i as int;
        let ghost pref_ctx = cfgs@.take(ii).map_values(|c: Kubeconfig| c.contexts@);
        let ghost pref_cl = cfgs@.take(ii).map_values(|c: Kubeconfig| c.clusters@);
        let ghost pref_us = cfgs@.take(ii).map_values(|c: Kubeconfig| c.auth_infos@);
        proof {
            assert(cfgs@.take(ii + 1) =~= cfgs@.take(ii).push(cfgs@[ii]));
            assert(cfgs@.take(ii + 1).map_values(|c: Kubeconfig| c.contexts@) =~= pref_ctx.push(
                cfgs@[ii].contexts@,
            ));
            assert(cfgs@.take(ii + 1).map_values(|c: Kubeconfig| c.clusters@) =~= pref_cl.push(
                cfgs@[ii].clusters@,
            ));
            assert(cfgs@.take(ii + 1).map_values(|c: Kubeconfig| c.auth_infos@) =~= pref_us.push(
                cfgs@[ii].auth_infos@,
            ));
        }
        let cfg = &cfgs[i];
        let ghost seen_pre = seen_ctx@;
        let sc = scan_registry(&cfg.contexts, DupKind::Context, seen_ctx, out);
        seen_ctx = sc.0;
        out = sc.1;
        proof {
            assert(seen_set(seen_pre) =~= Set::new(|n2: Seq<char>| any_has_name(pref_ctx, n2)));
            step_per_kind(pref_ctx, cfgs@[ii].contexts@, seen_ctx@, out@, DupKind::Context);
        }
        let ghost seen_pre = seen_cl@;
        let sc = scan_registry(&cfg.clusters, DupKind::Cluster, seen_cl, out);
        seen_cl = sc.0;
        out = sc.1;
        proof {
            assert(seen_set(seen_pre) =~= Set::new(|n2: Seq<char>| any_has_name(pref_cl, n2)));
            step_per_kind(pref_cl, cfgs@[ii].clusters@, seen_cl@, out@, DupKind::Cluster);
        }
        let ghost seen_pre = seen_us@;
        let sc = scan_registry(&cfg.auth_infos, DupKind::User, seen_us, out);
        seen_us = sc.0;
        out = sc.1;
        proof {
            assert(seen_set(seen_pre) =~= Set::new(|n2: Seq<char>| any_has_name(pref_us, n2)));
            step_per_kind(pref_us, cfgs@[ii].auth_infos@, seen_us@, out@, DupKind::User);
        }
        i = i + 1;
    }
    proof {
        assert(cfgs@.take(cfgs@.len() as int) =~= cfgs@);
    }
    out
}

/// The bookkeeping common to all three kinds: scanning the next source's
/// registry extends the seen names by that registry's names and raises the
/// per-name report count to `occurrences - 1` over the extended prefix.
proof fn step_per_kind<T>(
    pref: Seq<Seq<NamedEntry<T>>>,
    reg: Seq<NamedEntry<T>>,
    seen: Seq<String>,
    out: Seq<Duplicate>,
    k: DupKind,
)
    requires
        forall|n: Seq<char>| #[trigger] seen_contains(seen, n) == (any_has_name(pref, n) || has_name(reg, n)),
        forall|n: Seq<char>| #[trigger]
            dup_count(out, k, n) == expected_dups(occurrences(pref, n)) + dups_from(
                reg,
                Set::new(|n2: Seq<char>| any_has_name(pref, n2)),
                n,
            ),
    ensures
        forall|n: Seq<char>| #[trigger] seen_contains(seen, n) == any_has_name(pref.push(reg), n),
        forall|n: Seq<char>| #[trigger]
            dup_count(out, k, n) == expected_dups(occurrences(pref.push(reg), n)),
{
    assert forall|n: Seq<char>| #[trigger]
        seen_contains(seen, n) == any_has_name(pref.push(reg), n) by {
        lemma_any_has_name_push(pref, reg, n);
    }
    assert forall|n: Seq<char>| #[trigger]
        dup_count(out, k, n) == expected_dups(occurrences(pref.push(reg), n)) by {
        lemma_any_has_name_push(pref, reg, n);
        lemma_occurrences_push(pref, reg, n);
        lemma_occurrences_pos(pref, n);
        lemma_dups_from_value(reg, Set::new(|n2: Seq<char>| any_has_name(pref, n2)), n);
    }
}

/// For a name appearing in exactly `k` of the (individually well-formed)
/// sources, detection reports exactly `k - 1` duplicate entries for that
/// name: within one source a name occurs at most once, so the occurrence
/// total equals the number of sources carrying the name.
pub proof fn lemma_duplicates_per_name<T>(regs: Seq<Seq<NamedEntry<T>>>, n: Seq<char>, k: nat)
    requires
        forall|i: int| 0 <= i < regs.len() ==> unique_names(#[trigger] regs[i]),
        sources_with_name(regs, n) == k,
        k >= 1,
    ensures
        expected_dups(occurrences(regs, n)) == (k - 1) as nat,
{
    lemma_occurrences_eq_sources(regs, n);
}

/// How many of the registries carry the name `n`.
pub open spec fn sources_with_name<T>(regs: Seq<Seq<NamedEntry<T>>>, n: Seq<char>) -> nat
    decreases regs.len(),
{
    if regs.len() == 0 {
        0
    } else {
        (if has_name(regs[0], n) {
            1nat
        } else {
            0nat
        }) + sources_with_name(regs.drop_first(), n)
    }
}

proof fn lemma_count_in_unique<T>(s: Seq<NamedEntry<T>>, n: Seq<char>)
    requires
        unique_names(s),
    ensures
        count_in(s, n) == (if has_name(s, n) {
            1nat
        } else {
            0nat
        }),
    decreases s.len(),
{
    lemma_count_in_pos(s, n);
    if s.len() > 0 {
        assert forall|p: int, q: int|
            0 <= p < q < s.drop_first().len() implies s.drop_first()[p].name@
            != s.drop_first()[q].name@ by {
            assert(s[p + 1].name@ != s[q + 1].name@);
        }
        lemma_count_in_unique(s.drop_first(), n);
        lemma_has_name_unfold(s, n);
        if s[0].name@ == n && has_name(s.drop_first(), n) {
            let i = choose|i: int| 0 <= i < s.drop_first().len() && s.drop_first()[i].name@ == n;
            assert(s[0].name@ == s[i + 1].name@);
            assert(false);
        }
    }
}

proof fn lemma_occurrences_eq_sources<T>(regs: Seq<Seq<NamedEntry<T>>>, n: Seq<char>)
    requires
        forall|i: int| 0 <= i < regs.len() ==> unique_names(#[trigger] regs[i]),
    ensures
        occurrences(regs, n) == sources_with_name(regs, n),
    decreases regs.len(),
{
    if regs.len() > 0 {
        lemma_count_in_unique(regs[0], n);
        assert forall|i: int| 0 <= i < regs.drop_first().len() implies unique_names(
            #[trigger] regs.drop_first()[i],
        ) by {
            assert(regs.drop_first()[i] == regs[i + 1]);
        }
        lemma_occurrences_eq_sources(regs.drop_first(), n);
    }
}

} // verus!
