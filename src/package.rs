use vstd::prelude::*;

verus! {

/// The kinds of failure a backend call can end in.
#[derive(PartialEq, Eq, Structural, Clone, Copy, Debug)]
pub enum ErrorKind {
    /// The backend's tool is missing or cannot be invoked.
    BackendUnavailable,
    /// A call ran past its time bound.
    BackendTimeout,
    /// The tool ran and reported failure.
    BackendInvocationFailed,
    /// A mutating call over several packages changed some of them only.
    PartialOperationFailure,
    /// No backend at all could be initialized.
    NoBackendsAvailable,
}

/// One backend's failure, as reported beside merged results.
#[derive(Clone, Debug)]
pub struct BackendFailure {
    pub backend: String,
    pub kind: ErrorKind,
}

/// A package as one backend knows it.
#[derive(Clone, Debug)]
pub struct PackageInfo {
    pub name: String,
    pub version: String,
    pub backend: String,
    pub description: Option<String>,
}

/// A package with a newer version pending on one backend.
#[derive(Clone, Debug)]
pub struct PackageUpdate {
    pub name: String,
    pub current_version: String,
    pub version: String,
    pub backend: String,
}

/// Items that carry a package name and the tag of the backend that produced
/// them; merges deduplicate by this pair.
pub trait Tagged: Sized {
    spec fn name_of(&self) -> Seq<char>;

    spec fn backend_of(&self) -> Seq<char>;

    fn same_key(&self, other: &Self) -> (r: bool)
        ensures
            r == (self.name_of() == other.name_of() && self.backend_of() == other.backend_of()),
    ;

    fn duplicate(&self) -> (r: Self)
        ensures
            r == *self,
    ;
}

/// The pair that identifies an item within merged results.
pub open spec fn key_of<T: Tagged>(x: T) -> (Seq<char>, Seq<char>) {
    (x.name_of(), x.backend_of())
}

fn copy_opt(s: &Option<String>) -> (r: Option<String>)
    ensures
        r == *s,
{
    match s {
        Some(t) => Some(t.clone()),
        None => None,
    }
}

impl Tagged for PackageInfo {
    open spec fn name_of(&self) -> Seq<char> {
        self.name@
    }

    open spec fn backend_of(&self) -> Seq<char> {
        self.backend@
    }

    fn same_key(&self, other: &Self) -> (r: bool) {
        self.name == other.name && self.backend == other.backend
    }

    fn duplicate(&self) -> (r: Self) {
        PackageInfo {
            name: self.name.clone(),
            version: self.version.clone(),
            backend: self.backend.clone(),
            description: copy_opt(&self.description),
        }
    }
}

impl Tagged for PackageUpdate {
    open spec fn name_of(&self) -> Seq<char> {
        self.name@
    }

    open spec fn backend_of(&self) -> Seq<char> {
        self.backend@
    }

    fn same_key(&self, other: &Self) -> (r: bool) {
        self.name == other.name && self.backend == other.backend
    }

    fn duplicate(&self) -> (r: Self) {
        PackageUpdate {
            name: self.name.clone(),
            current_version: self.current_version.clone(),
            version: self.version.clone(),
            backend: self.backend.clone(),
        }
    }
}

/// An item-by-item copy of a sequence of tagged items.
pub fn copy_items<T: Tagged>(v: &Vec<T>) -> (r: Vec<T>)
    ensures
        r@ == v@,
{
    let mut r: Vec<T> = Vec::new();
    let mut i: usize = 0;
    while i < v.len()
        invariant
            i <= v@.len(),
            r@ == v@.take(i as int),
        decreases v@.len() - i,
    {
        r.push(v[i].duplicate());
        proof {
            assert(v@.take(i as int + 1) =~= v@.take(i as int).push(v@[i as int]));
        }
        i += 1;
    }
    assert(v@.take(v@.len() as int) =~= v@);
    r
}

} // verus!
