//! Geometry fields: a number together with the way it was declared.

use vstd::prelude::*;
use crate::fixed::{percent, plus, Real};

verus! {

/// How a geometry field gets its number.
#[derive(Clone, Copy, Debug, PartialEq, Eq, Structural)]
pub enum Kind {
    /// The number was written down and is never recomputed.
    Literal,
    /// The number is this percentage of the enclosing bound's dimension.
    Percent(Real),
    /// The number is derived from the bounds of the children.
    Auto,
}

/// A geometry field. `val` is the number in force: the literal itself, or
/// what the latest layout pass computed for a percentage or automatic field
/// (zero before the first pass).
#[derive(Clone, Copy, Debug, PartialEq, Eq, Structural)]
pub struct Value {
    pub val: Real,
    pub kind: Kind,
}

impl Value {
    /// The field after percentage resolution against a dimension `base`
    /// whose low edge lies at `origin`: a percentage field becomes
    /// `origin + pct / 100 * base`, any other field is unchanged.
    pub open spec fn by_pct(self, base: Real, origin: Real) -> Value {
        match self.kind {
            Kind::Percent(pct) => Value { val: plus(percent(pct, base), origin), kind: self.kind },
            _ => self,
        }
    }

    /// The field after automatic resolution: an automatic field takes
    /// `val`, any other field is unchanged.
    pub open spec fn by_auto(self, val: Real) -> Value {
        match self.kind {
            Kind::Auto => Value { val, kind: self.kind },
            _ => self,
        }
    }

    /// A literal field.
    pub fn literal(val: Real) -> (r: Value)
        ensures
            r == (Value { val, kind: Kind::Literal }),
    {
        Value { val, kind: Kind::Literal }
    }

    /// A percentage field, not yet resolved.
    pub fn percent(pct: Real) -> (r: Value)
        ensures
            r == (Value { val: 0, kind: Kind::Percent(pct) }),
    {
        Value { val: 0, kind: Kind::Percent(pct) }
    }

    /// An automatic field, not yet resolved.
    pub fn auto() -> (r: Value)
        ensures
            r == (Value { val: 0, kind: Kind::Auto }),
    {
        Value { val: 0, kind: Kind::Auto }
    }

    /// The number in force.
    pub fn val(&self) -> (r: Real)
        ensures
            r == self.val,
    {
        self.val
    }

    /// Resolves a percentage field against `base`, measured from zero.
    /// Returns whether the field is a percentage.
    pub fn set_by_pct(&mut self, base: Real) -> (is_pct: bool)
        ensures
            *final(self) == old(self).by_pct(base, 0),
            is_pct == (old(self).kind is Percent),
    {
        match self.kind {
            Kind::Percent(pct) => {
                self.val = percent(pct, base);
                true
            },
            _ => false,
        }
    }

    /// Resolves a percentage field against a dimension `base` whose low
    /// edge lies at `origin`.
    pub fn place_by_pct(&mut self, base: Real, origin: Real)
        ensures
            *final(self) == old(self).by_pct(base, origin),
    {
        if self.set_by_pct(base) {
            self.val = plus(self.val, origin);
        }
    }

    /// Gives an automatic field the number `val`. Returns whether the
    /// field is automatic.
    pub fn set_by_auto(&mut self, val: Real) -> (is_auto: bool)
        ensures
            *final(self) == old(self).by_auto(val),
            is_auto == (old(self).kind is Auto),
    {
        match self.kind {
            Kind::Auto => {
                self.val = val;
                true
            },
            _ => false,
        }
    }
}

impl Default for Value {
    /// An automatic field, not yet resolved.
    fn default() -> (r: Value)
        ensures
            r == (Value { val: 0, kind: Kind::Auto }),
    {
        Value { val: 0, kind: Kind::Auto }
    }
}

} // verus!
