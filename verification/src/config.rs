use vstd::prelude::*;

verus! {

/// One entry of a kubeconfig registry: a name bound to an optional payload.
/// An entry may carry a name and no body; resolution treats such an entry as
/// present but empty.
#[derive(Debug)]
pub struct NamedEntry<T> {
    pub name: String,
    pub value: Option<T>,
}

/// A context is a pointer-by-name linkage: it names a cluster and a user but
/// embeds neither. Either name may reference an entry that is absent from the
/// configuration (a dangling reference), which is a reportable state, not an
/// error.
#[derive(Debug)]
pub struct ContextRef {
    pub cluster: String,
    pub user: String,
}

/// Connection data for one cluster. The certificate authority may be given as
/// a file path or as inline data; both fields are inspected independently.
#[derive(Debug)]
pub struct Cluster {
    pub server: Option<String>,
    pub certificate_authority: Option<String>,
    pub certificate_authority_data: Option<String>,
    pub proxy_url: Option<String>,
}

/// An exec-credential plugin descriptor.
#[derive(Debug)]
pub struct ExecPlugin {
    pub command: Option<String>,
    pub args: Vec<String>,
}

/// Credential material for one user. The shapes are not mutually exclusive:
/// several may be present at once and each is inspected independently.
#[derive(Debug)]
pub struct AuthInfo {
    pub username: Option<String>,
    pub password: Option<String>,
    pub token: Option<String>,
    pub client_certificate: Option<String>,
    pub client_certificate_data: Option<String>,
    pub exec_config: Option<ExecPlugin>,
}

/// One kubeconfig source: three parallel registries, each mapping names to
/// entries. Names are unique within one source but not across sources.
#[derive(Debug)]
pub struct Kubeconfig {
    pub contexts: Vec<NamedEntry<ContextRef>>,
    pub clusters: Vec<NamedEntry<Cluster>>,
    pub auth_infos: Vec<NamedEntry<AuthInfo>>,
}

/// The payload of the first entry named `n`, or `None` when no entry carries
/// that name. The outer option distinguishes "no entry" from "an entry with an
/// empty payload" (`Some(None)`).
pub open spec fn lookup<T>(s: Seq<NamedEntry<T>>, n: Seq<char>) -> Option<Option<T>>
    decreases s.len(),
{
    if s.len() == 0 {
        None
    } else if s[0].name@ == n {
        Some(s[0].value)
    } else {
        lookup(s.drop_first(), n)
    }
}

/// Whether some entry carries the name `n`.
pub open spec fn has_name<T>(s: Seq<NamedEntry<T>>, n: Seq<char>) -> bool {
    exists|i: int| 0 <= i < s.len() && s[i].name@ == n
}

/// All entry names are pairwise distinct.
pub open spec fn unique_names<T>(s: Seq<NamedEntry<T>>) -> bool {
    forall|i: int, j: int| 0 <= i < j < s.len() ==> s[i].name@ != s[j].name@
}

/// The payload bound to `n`, collapsing "no entry" and "entry without a
/// payload" into `None`: what resolution acts on.
pub open spec fn resolved<T>(s: Seq<NamedEntry<T>>, n: Seq<char>) -> Option<T> {
    match lookup(s, n) {
        Some(Some(v)) => Some(v),
        _ => None,
    }
}

pub proof fn lemma_lookup_some_iff_has_name<T>(s: Seq<NamedEntry<T>>, n: Seq<char>)
    ensures
        lookup(s, n) is Some <==> has_name(s, n),
    decreases s.len(),
{
    if s.len() > 0 && s[0].name@ != n {
        lemma_lookup_some_iff_has_name(s.drop_first(), n);
        assert(has_name(s.drop_first(), n) ==> has_name(s, n)) by {
            if has_name(s.drop_first(), n) {
                let i = choose|i: int|
                    0 <= i < s.drop_first().len() && s.drop_first()[i].name@ == n;
                assert(s[i + 1].name@ == n);
            }
        }
        assert(has_name(s, n) ==> has_name(s.drop_first(), n)) by {
            if has_name(s, n) {
                let i = choose|i: int| 0 <= i < s.len() && s[i].name@ == n;
                assert(s.drop_first()[i - 1].name@ == n);
            }
        }
    }
}

pub proof fn lemma_lookup_at_index<T>(s: Seq<NamedEntry<T>>, n: Seq<char>, i: int)
    requires
        0 <= i < s.len(),
        s[i].name@ == n,
        forall|k: int| 0 <= k < i ==> s[k].name@ != n,
    ensures
        lookup(s, n) == Some(s[i].value),
    decreases s.len(),
{
    if i > 0 {
        lemma_lookup_at_index(s.drop_first(), n, i - 1);
    }
}

impl Kubeconfig {
    /// Names are unique within each of the three registries: the structural
    /// invariant a loader owes one source.
    pub open spec fn wf(&self) -> bool {
        unique_names(self.contexts@) && unique_names(self.clusters@) && unique_names(
            self.auth_infos@,
        )
    }

    pub fn is_well_formed(&self) -> (b: bool)
        ensures
            b == self.wf(),
    {
        names_unique(&self.contexts) && names_unique(&self.clusters) && names_unique(
            &self.auth_infos,
        )
    }

    pub fn context_names(&self) -> (v: Vec<String>)
        ensures
            v@.len() == self.contexts@.len(),
            forall|i: int| 0 <= i < v@.len() ==> v@[i] == self.contexts@[i].name,
    {
        names_of(&self.contexts)
    }

    pub fn cluster_names(&self) -> (v: Vec<String>)
        ensures
            v@.len() == self.clusters@.len(),
            forall|i: int| 0 <= i < v@.len() ==> v@[i] == self.clusters@[i].name,
    {
        names_of(&self.clusters)
    }

    pub fn user_names(&self) -> (v: Vec<String>)
        ensures
            v@.len() == self.auth_infos@.len(),
            forall|i: int| 0 <= i < v@.len() ==> v@[i] == self.auth_infos@[i].name,
    {
        names_of(&self.auth_infos)
    }
}

impl Default for Kubeconfig {
    /// The empty configuration: what merging no sources yields.
    fn default() -> (c: Kubeconfig)
        ensures
            c.contexts@ == Seq::<NamedEntry<ContextRef>>::empty(),
            c.clusters@ == Seq::<NamedEntry<Cluster>>::empty(),
            c.auth_infos@ == Seq::<NamedEntry<AuthInfo>>::empty(),
            c.wf(),
    {
        Kubeconfig { contexts: Vec::new(), clusters: Vec::new(), auth_infos: Vec::new() }
    }
}

/// The first entry named `name`, if any; `None` exactly when the name is
/// absent from the registry.
pub fn lookup_entry<'a, T>(entries: &'a Vec<NamedEntry<T>>, name: &String) -> (r: Option<
    &'a NamedEntry<T>,
>)
    ensures
        match r {
            Some(e) => lookup(entries@, name@) == Some(e.value) && e.name@ == name@,
            None => lookup(entries@, name@) is None,
        },
{
    let mut i: usize = 0;
    while i < entries.len()
        invariant
            0 <= i <= entries@.len(),
            forall|k: int| 0 <= k < i ==> entries@[k].name@ != name@,
        decreases entries@.len() - i,
    {
        if entries[i].name == *name {
            proof {
                lemma_lookup_at_index(entries@, name@, i as int);
            }
            return Some(&entries[i]);
        }
        i = i + 1;
    }
    proof {
        lemma_lookup_some_iff_has_name(entries@, name@);
    }
    None
}

/// Whether all entry names in the registry are pairwise distinct.
pub fn names_unique<T>(entries: &Vec<NamedEntry<T>>) -> (b: bool)
    ensures
        b == unique_names(entries@),
{
    let mut i: usize = 0;
    while i < entries.len()
        invariant
            0 <= i <= entries@.len(),
            forall|p: int, q: int|
                0 <= p < q < entries@.len() && p < i ==> entries@[p].name@ != entries@[q].name@,
        decreases entries@.len() - i,
    {
        let mut j: usize = i + 1;
        while j < entries.len()
            invariant
                i < j,
                j <= entries@.len() + 1,
                i < entries@.len(),
                forall|q: int| i < q < j ==> entries@[i as int].name@ != entries@[q].name@,
            decreases entries@.len() - j,
        {
            if entries[i].name == entries[j].name {
                return false;
            }
            j = j + 1;
        }
        i = i + 1;
    }
    true
}

fn names_of<T>(entries: &Vec<NamedEntry<T>>) -> (v: Vec<String>)
    ensures
        v@.len() == entries@.len(),
        forall|i: int| 0 <= i < v@.len() ==> v@[i] == entries@[i].name,
{
    let mut v: Vec<String> = Vec::new();
    let mut i: usize = 0;
    while i < entries.len()
        invariant
            0 <= i <= entries@.len(),
            v@.len() == i,
            forall|k: int| 0 <= k < i ==> v@[k] == entries@[k].name,
        decreases entries@.len() - i,
    {
        v.push(entries[i].name.clone());
        i = i + 1;
    }
    v
}

} // verus!
