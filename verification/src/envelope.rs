//! The envelope tree that patterns are matched against.
//!
//! An `Envelope` holds, as plain values, everything that pattern matching
//! reads of a Gordian Envelope: its case, its children, the dCBOR encoding of
//! a leaf, the value of a known value and the digest of every element.
use vstd::prelude::*;

use crate::text::{bytes_equal, bytes_to_vec, string_of};

verus! {

/// One element of an envelope tree.
#[derive(Debug, PartialEq, Eq, Hash)]
pub enum Envelope {
    /// A subject with one or more assertions.
    Node { subject: Box<Envelope>, assertions: Vec<Envelope>, digest: Vec<u8> },
    /// A dCBOR value, held as its encoding.
    Leaf { cbor: Vec<u8>, digest: Vec<u8> },
    /// An envelope wrapping another envelope.
    Wrapped { envelope: Box<Envelope>, digest: Vec<u8> },
    /// A predicate-object assertion.
    Assertion { predicate: Box<Envelope>, object: Box<Envelope>, digest: Vec<u8> },
    /// An elided element; only its digest remains.
    Elided { digest: Vec<u8> },
    /// A known value.
    KnownValue { value: u64, name: String, digest: Vec<u8> },
    /// An encrypted element.
    Encrypted { digest: Vec<u8> },
    /// A compressed element.
    Compressed { digest: Vec<u8> },
}

/// The mathematical value of an envelope element.
pub enum EnvelopeModel {
    Node { subject: Box<EnvelopeModel>, assertions: Seq<EnvelopeModel>, digest: Seq<u8> },
    Leaf { cbor: Seq<u8>, digest: Seq<u8> },
    Wrapped { envelope: Box<EnvelopeModel>, digest: Seq<u8> },
    Assertion { predicate: Box<EnvelopeModel>, object: Box<EnvelopeModel>, digest: Seq<u8> },
    Elided { digest: Seq<u8> },
    KnownValue { value: u64, name: Seq<char>, digest: Seq<u8> },
    Encrypted { digest: Seq<u8> },
    Compressed { digest: Seq<u8> },
}

pub open spec fn env_model(e: Envelope) -> EnvelopeModel
    decreases e, 0int,
{
    match e {
        Envelope::Node { subject, assertions, digest } => EnvelopeModel::Node {
            subject: Box::new(env_model(*subject)),
            assertions: env_models(assertions@, assertions@.len() as int),
            digest: digest@,
        },
        Envelope::Leaf { cbor, digest } => EnvelopeModel::Leaf { cbor: cbor@, digest: digest@ },
        Envelope::Wrapped { envelope, digest } => EnvelopeModel::Wrapped {
            envelope: Box::new(env_model(*envelope)),
            digest: digest@,
        },
        Envelope::Assertion { predicate, object, digest } => EnvelopeModel::Assertion {
            predicate: Box::new(env_model(*predicate)),
            object: Box::new(env_model(*object)),
            digest: digest@,
        },
        Envelope::Elided { digest } => EnvelopeModel::Elided { digest: digest@ },
        Envelope::KnownValue { value, name, digest } => EnvelopeModel::KnownValue {
            value,
            name: name@,
            digest: digest@,
        },
        Envelope::Encrypted { digest } => EnvelopeModel::Encrypted { digest: digest@ },
        Envelope::Compressed { digest } => EnvelopeModel::Compressed { digest: digest@ },
    }
}

/// The models of the first `n` envelopes of `s`.
pub open spec fn env_models(s: Seq<Envelope>, n: int) -> Seq<EnvelopeModel>
    decreases s, n,
{
    if n <= 0 || n > s.len() {
        Seq::empty()
    } else {
        env_models(s, n - 1).push(env_model(s[n - 1]))
    }
}

impl View for Envelope {
    type V = EnvelopeModel;

    open spec fn view(&self) -> EnvelopeModel {
        env_model(*self)
    }
}

impl EnvelopeModel {
    /// The digest of the element.
    pub open spec fn digest(self) -> Seq<u8> {
        match self {
            EnvelopeModel::Node { digest, .. } => digest,
            EnvelopeModel::Leaf { digest, .. } => digest,
            EnvelopeModel::Wrapped { digest, .. } => digest,
            EnvelopeModel::Assertion { digest, .. } => digest,
            EnvelopeModel::Elided { digest } => digest,
            EnvelopeModel::KnownValue { digest, .. } => digest,
            EnvelopeModel::Encrypted { digest } => digest,
            EnvelopeModel::Compressed { digest } => digest,
        }
    }

    /// The subject of a node; any other element is its own subject.
    pub open spec fn subject(self) -> EnvelopeModel {
        match self {
            EnvelopeModel::Node { subject, .. } => *subject,
            _ => self,
        }
    }

    /// The assertions of a node; no other element has assertions.
    pub open spec fn assertions(self) -> Seq<EnvelopeModel> {
        match self {
            EnvelopeModel::Node { assertions, .. } => assertions,
            _ => Seq::empty(),
        }
    }

    /// The predicate of the assertion that is this element's subject.
    pub open spec fn as_predicate(self) -> Option<EnvelopeModel> {
        match self.subject() {
            EnvelopeModel::Assertion { predicate, .. } => Some(*predicate),
            _ => None,
        }
    }

    /// The object of the assertion that is this element's subject.
    pub open spec fn as_object(self) -> Option<EnvelopeModel> {
        match self.subject() {
            EnvelopeModel::Assertion { object, .. } => Some(*object),
            _ => None,
        }
    }

    /// The content of the wrapped envelope that is this element's subject.
    pub open spec fn try_unwrap(self) -> Option<EnvelopeModel> {
        match self.subject() {
            EnvelopeModel::Wrapped { envelope, .. } => Some(*envelope),
            _ => None,
        }
    }

    /// The encoded dCBOR of a leaf.
    pub open spec fn as_leaf(self) -> Option<Seq<u8>> {
        match self {
            EnvelopeModel::Leaf { cbor, .. } => Some(cbor),
            _ => None,
        }
    }

    /// The name of a known value: the name the known-values registry gives
    /// it, or its number when it has none.
    pub open spec fn known_value_name(self) -> Option<Seq<char>> {
        match self {
            EnvelopeModel::KnownValue { name, .. } => Some(name),
            _ => None,
        }
    }

    /// The value of a known value.
    pub open spec fn as_known_value(self) -> Option<u64> {
        match self {
            EnvelopeModel::KnownValue { value, .. } => Some(value),
            _ => None,
        }
    }

    pub open spec fn is_node(self) -> bool {
        self is Node
    }

    pub open spec fn is_leaf(self) -> bool {
        self is Leaf
    }

    pub open spec fn is_wrapped(self) -> bool {
        self is Wrapped
    }

    pub open spec fn is_known_value(self) -> bool {
        self is KnownValue
    }

    pub open spec fn is_elided(self) -> bool {
        self is Elided
    }

    pub open spec fn is_encrypted(self) -> bool {
        self is Encrypted
    }

    pub open spec fn is_compressed(self) -> bool {
        self is Compressed
    }

    /// Elided, encrypted or compressed.
    pub open spec fn is_obscured(self) -> bool {
        self is Elided || self is Encrypted || self is Compressed
    }

    /// The elements directly below this one, in walking order: a node's
    /// subject then its assertions, a wrapped envelope's content, an
    /// assertion's predicate then its object.
    pub open spec fn children(self) -> Seq<EnvelopeModel> {
        match self {
            EnvelopeModel::Node { subject, assertions, .. } => seq![*subject] + assertions,
            EnvelopeModel::Wrapped { envelope, .. } => seq![*envelope],
            EnvelopeModel::Assertion { predicate, object, .. } => seq![*predicate, *object],
            _ => Seq::empty(),
        }
    }
}

/// The models of a sequence of envelopes.
pub open spec fn path_model(p: Seq<Envelope>) -> Seq<EnvelopeModel> {
    Seq::new(p.len(), |i: int| p[i]@)
}

/// The models of a sequence of paths.
pub open spec fn paths_model(ps: Seq<Vec<Envelope>>) -> Seq<Seq<EnvelopeModel>> {
    Seq::new(ps.len(), |i: int| path_model(ps[i]@))
}

proof fn lemma_env_models_index(s: Seq<Envelope>, n: int, i: int)
    requires
        0 <= i < n <= s.len(),
    ensures
        env_models(s, n).len() == n,
        env_models(s, n)[i] == s[i]@,
    decreases n,
{
    if i < n - 1 {
        lemma_env_models_index(s, n - 1, i);
    } else {
        if n > 1 {
            lemma_env_models_index(s, n - 1, 0);
        } else {
            assert(env_models(s, n - 1) =~= Seq::<EnvelopeModel>::empty());
        }
    }
}

/// The models of all of `s`, element by element.
pub proof fn lemma_env_models(s: Seq<Envelope>)
    ensures
        env_models(s, s.len() as int) == path_model(s),
{
    if s.len() == 0 {
        assert(env_models(s, 0) =~= path_model(s));
    } else {
        assert forall|i: int| 0 <= i < s.len() implies env_models(s, s.len() as int)[i]
            == path_model(s)[i] by {
            lemma_env_models_index(s, s.len() as int, i);
        }
        lemma_env_models_index(s, s.len() as int, 0);
        assert(env_models(s, s.len() as int) =~= path_model(s));
    }
}

impl Envelope {
    /// The digest of the element.
    pub fn digest(&self) -> (r: &Vec<u8>)
        ensures
            r@ == self@.digest(),
    {
        match self {
            Envelope::Node { digest, .. } => digest,
            Envelope::Leaf { digest, .. } => digest,
            Envelope::Wrapped { digest, .. } => digest,
            Envelope::Assertion { digest, .. } => digest,
            Envelope::Elided { digest } => digest,
            Envelope::KnownValue { digest, .. } => digest,
            Envelope::Encrypted { digest } => digest,
            Envelope::Compressed { digest } => digest,
        }
    }

    /// The subject of a node, or the element itself.
    pub fn subject(&self) -> (r: &Envelope)
        ensures
            r@ == self@.subject(),
    {
        match self {
            Envelope::Node { subject, .. } => subject,
            _ => self,
        }
    }

    /// The assertions of a node.
    pub fn node_assertions(&self) -> (r: Option<&Vec<Envelope>>)
        ensures
            self@ is Node <==> r is Some,
            r matches Some(v) ==> path_model(v@) == self@.assertions(),
    {
        match self {
            Envelope::Node { assertions, .. } => {
                proof {
                    lemma_env_models(assertions@);
                }
                Some(assertions)
            },
            _ => None,
        }
    }

    /// The number of assertions (zero unless the element is a node).
    pub fn assertion_count(&self) -> (r: usize)
        ensures
            r == self@.assertions().len(),
    {
        match self {
            Envelope::Node { assertions, .. } => {
                proof {
                    lemma_env_models(assertions@);
                }
                assertions.len()
            },
            _ => 0,
        }
    }

    /// The predicate of the assertion that is this element's subject.
    pub fn as_predicate(&self) -> (r: Option<&Envelope>)
        ensures
            r matches Some(x) ==> self@.as_predicate() == Some(x@),
            r is None ==> self@.as_predicate() is None,
    {
        match self.subject() {
            Envelope::Assertion { predicate, .. } => Some(predicate),
            _ => None,
        }
    }

    /// The object of the assertion that is this element's subject.
    pub fn as_object(&self) -> (r: Option<&Envelope>)
        ensures
            r matches Some(x) ==> self@.as_object() == Some(x@),
            r is None ==> self@.as_object() is None,
    {
        match self.subject() {
            Envelope::Assertion { object, .. } => Some(object),
            _ => None,
        }
    }

    /// The content of the wrapped envelope that is this element's subject.
    pub fn try_unwrap(&self) -> (r: Option<&Envelope>)
        ensures
            r matches Some(x) ==> self@.try_unwrap() == Some(x@),
            r is None ==> self@.try_unwrap() is None,
    {
        match self.subject() {
            Envelope::Wrapped { envelope, .. } => Some(envelope),
            _ => None,
        }
    }

    /// The encoded dCBOR of a leaf.
    pub fn as_leaf(&self) -> (r: Option<&Vec<u8>>)
        ensures
            r matches Some(x) ==> self@.as_leaf() == Some(x@),
            r is None ==> self@.as_leaf() is None,
    {
        match self {
            Envelope::Leaf { cbor, .. } => Some(cbor),
            _ => None,
        }
    }

    /// The name of a known value.
    pub fn known_value_name(&self) -> (r: Option<&String>)
        ensures
            r matches Some(n) ==> self@.known_value_name() == Some(n@),
            r is None ==> self@.known_value_name() is None,
    {
        match self {
            Envelope::KnownValue { name, .. } => Some(name),
            _ => None,
        }
    }

    /// The value of a known value.
    pub fn as_known_value(&self) -> (r: Option<u64>)
        ensures
            r == self@.as_known_value(),
    {
        match self {
            Envelope::KnownValue { value, .. } => Some(*value),
            _ => None,
        }
    }

    pub fn is_node(&self) -> (r: bool)
        ensures
            r == self@.is_node(),
    {
        matches!(self, Envelope::Node { .. })
    }

    pub fn is_leaf(&self) -> (r: bool)
        ensures
            r == self@.is_leaf(),
    {
        matches!(self, Envelope::Leaf { .. })
    }

    pub fn is_wrapped(&self) -> (r: bool)
        ensures
            r == self@.is_wrapped(),
    {
        matches!(self, Envelope::Wrapped { .. })
    }

    pub fn is_known_value(&self) -> (r: bool)
        ensures
            r == self@.is_known_value(),
    {
        matches!(self, Envelope::KnownValue { .. })
    }

    pub fn is_elided(&self) -> (r: bool)
        ensures
            r == self@.is_elided(),
    {
        matches!(self, Envelope::Elided { .. })
    }

    pub fn is_encrypted(&self) -> (r: bool)
        ensures
            r == self@.is_encrypted(),
    {
        matches!(self, Envelope::Encrypted { .. })
    }

    pub fn is_compressed(&self) -> (r: bool)
        ensures
            r == self@.is_compressed(),
    {
        matches!(self, Envelope::Compressed { .. })
    }

    pub fn is_obscured(&self) -> (r: bool)
        ensures
            r == self@.is_obscured(),
    {
        self.is_elided() || self.is_encrypted() || self.is_compressed()
    }

    /// A deep copy of the element.
    pub fn duplicate(&self) -> (r: Envelope)
        ensures
            r@ == self@,
        decreases self,
    {
        match self {
            Envelope::Node { subject, assertions, digest } => {
                let s = subject.duplicate();
                let mut out: Vec<Envelope> = Vec::new();
                let mut i: usize = 0;
                while i < assertions.len()
                    invariant
                        i <= assertions@.len(),
                        *self is Node,
                        self->assertions == *assertions,
                        out@.len() == i,
                        forall|j: int| 0 <= j < i ==> out@[j]@ == assertions@[j]@,
                    decreases assertions@.len() - i,
                {
                    proof {
                        vstd::std_specs::vec::axiom_vec_index_decreases(*assertions, i as int);
                        assert(decreases_to!(*self => self->assertions));
                    }
                    let a = assertions[i].duplicate();
                    out.push(a);
                    i = i + 1;
                }
                proof {
                    lemma_env_models(assertions@);
                    lemma_env_models(out@);
                    assert(path_model(out@) =~= path_model(assertions@));
                }
                Envelope::Node {
                    subject: Box::new(s),
                    assertions: out,
                    digest: bytes_to_vec(digest.as_slice()),
                }
            },
            Envelope::Leaf { cbor, digest } => Envelope::Leaf {
                cbor: bytes_to_vec(cbor.as_slice()),
                digest: bytes_to_vec(digest.as_slice()),
            },
            Envelope::Wrapped { envelope, digest } => Envelope::Wrapped {
                envelope: Box::new(envelope.duplicate()),
                digest: bytes_to_vec(digest.as_slice()),
            },
            Envelope::Assertion { predicate, object, digest } => Envelope::Assertion {
                predicate: Box::new(predicate.duplicate()),
                object: Box::new(object.duplicate()),
                digest: bytes_to_vec(digest.as_slice()),
            },
            Envelope::Elided { digest } => Envelope::Elided {
                digest: bytes_to_vec(digest.as_slice()),
            },
            Envelope::KnownValue { value, name, digest } => Envelope::KnownValue {
                value: *value,
                name: string_of(name.as_str()),
                digest: bytes_to_vec(digest.as_slice()),
            },
            Envelope::Encrypted { digest } => Envelope::Encrypted {
                digest: bytes_to_vec(digest.as_slice()),
            },
            Envelope::Compressed { digest } => Envelope::Compressed {
                digest: bytes_to_vec(digest.as_slice()),
            },
        }
    }
    /// Whether two elements are identical: same case, same digests and same
    /// structure all the way down.
    pub fn identical(&self, other: &Envelope) -> (r: bool)
        ensures
            r == (self@ == other@),
        decreases self,
    {
        match (self, other) {
            (
                Envelope::Node { subject: s1, assertions: a1, digest: d1 },
                Envelope::Node { subject: s2, assertions: a2, digest: d2 },
            ) => {
                if !bytes_equal(d1.as_slice(), d2.as_slice()) {
                    return false;
                }
                if !s1.identical(s2) {
                    return false;
                }
                if a1.len() != a2.len() {
                    proof {
                        lemma_env_models(a1@);
                        lemma_env_models(a2@);
                        assert(self@.assertions().len() != other@.assertions().len());
                    }
                    return false;
                }
                let mut i: usize = 0;
                while i < a1.len()
                    invariant
                        i <= a1@.len(),
                        a1@.len() == a2@.len(),
                        *self is Node,
                        self->assertions == *a1,
                        *other is Node,
                        other->assertions == *a2,
                        forall|j: int| 0 <= j < i ==> a1@[j]@ == a2@[j]@,
                    decreases a1@.len() - i,
                {
                    proof {
                        vstd::std_specs::vec::axiom_vec_index_decreases(*a1, i as int);
                        assert(decreases_to!(*self => self->assertions));
                    }
                    if !a1[i].identical(&a2[i]) {
                        proof {
                            lemma_env_models(a1@);
                            lemma_env_models(a2@);
                            assert(self@.assertions()[i as int] != other@.assertions()[i as int]);
                        }
                        return false;
                    }
                    i = i + 1;
                }
                proof {
                    lemma_env_models(a1@);
                    lemma_env_models(a2@);
                    assert(path_model(a1@) =~= path_model(a2@));
                }
                true
            },
            (Envelope::Leaf { cbor: c1, digest: d1 }, Envelope::Leaf { cbor: c2, digest: d2 }) => {
                bytes_equal(c1.as_slice(), c2.as_slice()) && bytes_equal(
                    d1.as_slice(),
                    d2.as_slice(),
                )
            },
            (
                Envelope::Wrapped { envelope: e1, digest: d1 },
                Envelope::Wrapped { envelope: e2, digest: d2 },
            ) => {
                bytes_equal(d1.as_slice(), d2.as_slice()) && e1.identical(e2)
            },
            (
                Envelope::Assertion { predicate: p1, object: o1, digest: d1 },
                Envelope::Assertion { predicate: p2, object: o2, digest: d2 },
            ) => {
                bytes_equal(d1.as_slice(), d2.as_slice()) && p1.identical(p2) && o1.identical(o2)
            },
            (Envelope::Elided { digest: d1 }, Envelope::Elided { digest: d2 }) => {
                bytes_equal(d1.as_slice(), d2.as_slice())
            },
            (
                Envelope::KnownValue { value: v1, name: n1, digest: d1 },
                Envelope::KnownValue { value: v2, name: n2, digest: d2 },
            ) => {
                *v1 == *v2 && n1.eq(n2) && bytes_equal(d1.as_slice(), d2.as_slice())
            },
            (Envelope::Encrypted { digest: d1 }, Envelope::Encrypted { digest: d2 }) => {
                bytes_equal(d1.as_slice(), d2.as_slice())
            },
            (Envelope::Compressed { digest: d1 }, Envelope::Compressed { digest: d2 }) => {
                bytes_equal(d1.as_slice(), d2.as_slice())
            },
            _ => false,
        }
    }

    /// Whether two elements have the same digest.
    pub fn same_digest(&self, other: &Envelope) -> (r: bool)
        ensures
            r == (self@.digest() == other@.digest()),
    {
        bytes_equal(self.digest().as_slice(), other.digest().as_slice())
    }
}


} // verus!
