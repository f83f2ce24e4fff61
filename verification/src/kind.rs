//! The structural type of a value in the expression language and in the
//! event schema: the set of primitive shapes a value at some place may take.

use vstd::prelude::*;

verus! {

/// A `Kind` is a set of primitive value shapes.  A value "of kind `k`" may,
/// at run time, take any shape whose flag is set in `k`.  The empty kind
/// (no flag set) is the type of an expression that never yields a value.
#[derive(Clone, Copy, PartialEq, Eq, Structural, Debug)]
pub struct Kind {
    pub bytes: bool,
    pub integer: bool,
    pub float: bool,
    pub boolean: bool,
    pub timestamp: bool,
    pub regex: bool,
    pub null: bool,
    pub array: bool,
    pub object: bool,
}

impl Kind {
    /// The kind that admits every shape.
    pub fn any() -> (k: Kind)
        ensures
            k == Kind::spec_any(),
    {
        Kind {
            bytes: true,
            integer: true,
            float: true,
            boolean: true,
            timestamp: true,
            regex: true,
            null: true,
            array: true,
            object: true,
        }
    }

    pub open spec fn spec_any() -> Kind {
        Kind {
            bytes: true,
            integer: true,
            float: true,
            boolean: true,
            timestamp: true,
            regex: true,
            null: true,
            array: true,
            object: true,
        }
    }

    /// The empty kind: the type of an expression that never returns.
    pub fn never() -> (k: Kind)
        ensures
            k == Kind::spec_never(),
    {
        Kind {
            bytes: false,
            integer: false,
            float: false,
            boolean: false,
            timestamp: false,
            regex: false,
            null: false,
            array: false,
            object: false,
        }
    }

    pub open spec fn spec_never() -> Kind {
        Kind {
            bytes: false,
            integer: false,
            float: false,
            boolean: false,
            timestamp: false,
            regex: false,
            null: false,
            array: false,
            object: false,
        }
    }

    pub fn bytes() -> (k: Kind)
        ensures
            k == (Kind { bytes: true, ..Kind::spec_never() }),
    {
        let mut k = Kind::never();
        k.bytes = true;
        k
    }

    pub fn integer() -> (k: Kind)
        ensures
            k == (Kind { integer: true, ..Kind::spec_never() }),
    {
        let mut k = Kind::never();
        k.integer = true;
        k
    }

    pub fn float() -> (k: Kind)
        ensures
            k == (Kind { float: true, ..Kind::spec_never() }),
    {
        let mut k = Kind::never();
        k.float = true;
        k
    }

    pub fn boolean() -> (k: Kind)
        ensures
            k == (Kind { boolean: true, ..Kind::spec_never() }),
    {
        let mut k = Kind::never();
        k.boolean = true;
        k
    }

    pub fn timestamp() -> (k: Kind)
        ensures
            k == (Kind { timestamp: true, ..Kind::spec_never() }),
    {
        let mut k = Kind::never();
        k.timestamp = true;
        k
    }

    pub fn regex() -> (k: Kind)
        ensures
            k == (Kind { regex: true, ..Kind::spec_never() }),
    {
        let mut k = Kind::never();
        k.regex = true;
        k
    }

    pub fn null() -> (k: Kind)
        ensures
            k == (Kind { null: true, ..Kind::spec_never() }),
    {
        let mut k = Kind::never();
        k.null = true;
        k
    }

    pub fn array() -> (k: Kind)
        ensures
            k == (Kind { array: true, ..Kind::spec_never() }),
    {
        let mut k = Kind::never();
        k.array = true;
        k
    }

    pub fn object() -> (k: Kind)
        ensures
            k == (Kind { object: true, ..Kind::spec_never() }),
    {
        let mut k = Kind::never();
        k.object = true;
        k
    }

    /// The union of the shapes admitted by either side.
    pub open spec fn spec_union(self, other: Kind) -> Kind {
        Kind {
            bytes: self.bytes || other.bytes,
            integer: self.integer || other.integer,
            float: self.float || other.float,
            boolean: self.boolean || other.boolean,
            timestamp: self.timestamp || other.timestamp,
            regex: self.regex || other.regex,
            null: self.null || other.null,
            array: self.array || other.array,
            object: self.object || other.object,
        }
    }

    /// Widen this kind by every shape the other admits.
    pub fn union(&self, other: &Kind) -> (k: Kind)
        ensures
            k == self.spec_union(*other),
    {
        Kind {
            bytes: self.bytes || other.bytes,
            integer: self.integer || other.integer,
            float: self.float || other.float,
            boolean: self.boolean || other.boolean,
            timestamp: self.timestamp || other.timestamp,
            regex: self.regex || other.regex,
            null: self.null || other.null,
            array: self.array || other.array,
            object: self.object || other.object,
        }
    }

    /// `self` is a superset of `other`: every shape `other` admits,
    /// `self` admits too.
    pub open spec fn spec_is_superset(self, other: Kind) -> bool {
        &&& (other.bytes ==> self.bytes)
        &&& (other.integer ==> self.integer)
        &&& (other.float ==> self.float)
        &&& (other.boolean ==> self.boolean)
        &&& (other.timestamp ==> self.timestamp)
        &&& (other.regex ==> self.regex)
        &&& (other.null ==> self.null)
        &&& (other.array ==> self.array)
        &&& (other.object ==> self.object)
    }

    pub fn is_superset(&self, other: &Kind) -> (r: bool)
        ensures
            r == self.spec_is_superset(*other),
    {
        (!other.bytes || self.bytes) && (!other.integer || self.integer)
            && (!other.float || self.float) && (!other.boolean || self.boolean)
            && (!other.timestamp || self.timestamp) && (!other.regex || self.regex)
            && (!other.null || self.null) && (!other.array || self.array)
            && (!other.object || self.object)
    }

    /// No shape at all: the kind of an expression that never yields a value.
    pub open spec fn spec_is_never(self) -> bool {
        self == Kind::spec_never()
    }

    pub fn is_never(&self) -> (r: bool)
        ensures
            r == self.spec_is_never(),
    {
        !self.bytes && !self.integer && !self.float && !self.boolean && !self.timestamp
            && !self.regex && !self.null && !self.array && !self.object
    }

    /// Exactly the boolean shape.
    pub open spec fn spec_is_exactly_boolean(self) -> bool {
        self == (Kind { boolean: true, ..Kind::spec_never() })
    }

    pub fn is_exactly_boolean(&self) -> (r: bool)
        ensures
            r == self.spec_is_exactly_boolean(),
    {
        !self.bytes && !self.integer && !self.float && self.boolean && !self.timestamp
            && !self.regex && !self.null && !self.array && !self.object
    }

    /// Only numeric shapes (integer or float), and at least one of them.
    pub open spec fn spec_is_numeric(self) -> bool {
        &&& (self.integer || self.float)
        &&& !self.bytes
        &&& !self.boolean
        &&& !self.timestamp
        &&& !self.regex
        &&& !self.null
        &&& !self.array
        &&& !self.object
    }

    pub fn is_numeric(&self) -> (r: bool)
        ensures
            r == self.spec_is_numeric(),
    {
        (self.integer || self.float) && !self.bytes && !self.boolean && !self.timestamp
            && !self.regex && !self.null && !self.array && !self.object
    }

    /// Exactly the bytes shape.
    pub open spec fn spec_is_exactly_bytes(self) -> bool {
        self == (Kind { bytes: true, ..Kind::spec_never() })
    }

    pub fn is_exactly_bytes(&self) -> (r: bool)
        ensures
            r == self.spec_is_exactly_bytes(),
    {
        self.bytes && !self.integer && !self.float && !self.boolean && !self.timestamp
            && !self.regex && !self.null && !self.array && !self.object
    }

    /// Exactly the object shape.
    pub open spec fn spec_is_exactly_object(self) -> bool {
        self == (Kind { object: true, ..Kind::spec_never() })
    }

    pub fn is_exactly_object(&self) -> (r: bool)
        ensures
            r == self.spec_is_exactly_object(),
    {
        !self.bytes && !self.integer && !self.float && !self.boolean && !self.timestamp
            && !self.regex && !self.null && !self.array && self.object
    }
}

/// The union of kinds is idempotent: widening a kind by itself changes
/// nothing.
pub proof fn lemma_kind_union_self(k: Kind)
    ensures
        k.spec_union(k) == k,
{
}

/// The union of kinds is commutative.
pub proof fn lemma_kind_union_commutes(a: Kind, b: Kind)
    ensures
        a.spec_union(b) == b.spec_union(a),
{
}

/// The union of two kinds is a superset of both.
pub proof fn lemma_kind_union_widens(a: Kind, b: Kind)
    ensures
        a.spec_union(b).spec_is_superset(a),
        a.spec_union(b).spec_is_superset(b),
{
}

} // verus!
