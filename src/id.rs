//! Package identities: a name and a version, written `name@version`.

use vstd::prelude::*;

verus! {

/// The identity of a package.
#[derive(Debug, Clone)]
pub struct Id {
    pub name: String,
    pub version: String,
}

impl View for Id {
    type V = (Seq<char>, Seq<char>);

    open spec fn view(&self) -> (Seq<char>, Seq<char>) {
        (self.name@, self.version@)
    }
}

impl PartialEq for Id {
    fn eq(&self, other: &Id) -> (r: bool) {
        self.name == other.name && self.version == other.version
    }
}

impl vstd::std_specs::cmp::PartialEqSpecImpl for Id {
    open spec fn obeys_eq_spec() -> bool {
        true
    }

    open spec fn eq_spec(&self, other: &Id) -> bool {
        self@ == other@
    }
}

/// The malformed package identity, as given.
#[derive(Debug)]
pub struct IdError {
    pub text: String,
}

/// `k` is the position of the one `@` of `s`.
pub open spec fn sole_at(s: Seq<char>, k: int) -> bool {
    &&& 0 <= k < s.len()
    &&& s[k] == '@'
    &&& forall|j: int| 0 <= j < s.len() && j != k ==> s[j] != '@'
}

/// `name@version` as text.
pub open spec fn id_text(name: Seq<char>, version: Seq<char>) -> Seq<char> {
    name + seq!['@'] + version
}

/// Splits `name@version` at its `@`; there must be exactly one.
pub fn parse_id(id: &str) -> (r: Result<(String, String), IdError>)
    ensures
        r is Ok <==> exists|k: int| sole_at(id@, k),
        forall|k: int|
            sole_at(id@, k) ==> (r matches Ok((n, v)) && n@ == id@.take(k) && v@ == id@.skip(k + 1)),
        r matches Err(e) ==> e.text@ == id@,
{
    let chars = crate::text::chars_of(id);
    let mut at: Option<usize> = None;
    let mut i: usize = 0;
    while i < chars.len()
        invariant
            chars@ == id@,
            i <= chars@.len(),
            match at {
                None => forall|j: int| 0 <= j < i ==> chars@[j] != '@',
                Some(k) => k < i && chars@[k as int] == '@' && forall|j: int|
                    0 <= j < i && j != k ==> chars@[j] != '@',
            },
        decreases chars@.len() - i,
    {
        if chars[i] == '@' {
            if at.is_some() {
                let k = at.unwrap();
                assert(!sole_at(id@, k as int));
                assert forall|k2: int| !sole_at(id@, k2) by {
                    if sole_at(id@, k2) {
                        assert(k2 == k as int || k2 == i as int);
                    }
                }
                return Err(IdError { text: id.to_owned() });
            }
            at = Some(i);
        }
        i = i + 1;
    }
    match at {
        None => Err(IdError { text: id.to_owned() }),
        Some(k) => {
            assert(sole_at(id@, k as int));
            let name = id.substring_char(0, k).to_owned();
            let version = id.substring_char(k + 1, chars.len()).to_owned();
            assert(id@.subrange(0, k as int) =~= id@.take(k as int));
            assert(id@.subrange(k + 1, id@.len() as int) =~= id@.skip(k + 1));
            Ok((name, version))
        },
    }
}

impl Id {
    /// Reads an identity written `name@version`.
    pub fn from_str(s: &str) -> (r: Result<Id, IdError>)
        ensures
            r is Ok <==> exists|k: int| sole_at(s@, k),
            forall|k: int|
                sole_at(s@, k) ==> (r matches Ok(id) && id.name@ == s@.take(k) && id.version@
                    == s@.skip(k + 1)),
    {
        match parse_id(s) {
            Ok((name, version)) => Ok(Id { name, version }),
            Err(e) => Err(e),
        }
    }

    /// The identity written as `name@version`.
    pub fn to_text(&self) -> (r: String)
        ensures
            r@ == id_text(self.name@, self.version@),
    {
        proof {
            reveal_strlit("@");
        }
        self.name.clone().concat("@").concat(self.version.as_str())
    }

    /// A copy of this identity.
    pub fn duplicate(&self) -> (r: Id)
        ensures
            r == *self,
    {
        Id { name: self.name.clone(), version: self.version.clone() }
    }
}

} // verus!
