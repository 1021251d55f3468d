use vstd::prelude::*;
use vstd::string::StringExecFns;

verus! {

/// A key of any of the stores: a string, compared by its characters.
#[derive(Debug)]
pub struct Key(pub String);

impl View for Key {
    type V = Seq<char>;

    open spec fn view(&self) -> Seq<char> {
        self.0@
    }
}

impl Key {
    pub fn new(s: &str) -> (r: Key)
        ensures
            r@ == s@,
    {
        Key(s.to_string())
    }

    /// The key `"ns:key"`.
    pub fn namespaced(ns: &Key, key: &Key) -> (r: Key)
        ensures
            r@ == ns@ + seq![':'] + key@,
    {
        let mut s = ns.0.clone();
        s.append(":");
        s.append(key.0.as_str());
        proof {
            reveal_strlit(":");
        }
        Key(s)
    }
}

impl Clone for Key {
    fn clone(&self) -> (r: Key)
        ensures
            r == *self,
    {
        Key(self.0.clone())
    }
}

impl PartialEq for Key {
    fn eq(&self, other: &Key) -> (r: bool) {
        self.0 == other.0
    }
}

impl vstd::std_specs::cmp::PartialEqSpecImpl for Key {
    open spec fn obeys_eq_spec() -> bool {
        true
    }

    open spec fn eq_spec(&self, other: &Key) -> bool {
        self@ == other@
    }
}

} // verus!
