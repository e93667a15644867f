//! The four-corner layout shared by raw readings and calibration constants.
use vstd::prelude::*;

verus! {

/// Identifier for one of the four corners.
#[derive(Debug, Clone, Copy, PartialEq, Eq, Hash, Structural)]
pub enum Corner {
    /// Top-right corner.
    TopRight,
    /// Bottom-right corner.
    BottomRight,
    /// Top-left corner.
    TopLeft,
    /// Bottom-left corner.
    BottomLeft,
}

/// Generic four-corner container: one value per load cell.
#[derive(Debug, Clone, Copy, PartialEq)]
pub struct SensorQuad<T> {
    /// Top-right corner (power button on the right edge, seen from above).
    pub top_right: T,
    /// Bottom-right corner.
    pub bottom_right: T,
    /// Top-left corner.
    pub top_left: T,
    /// Bottom-left corner.
    pub bottom_left: T,
}

impl<T> SensorQuad<T> {
    /// The value stored for `corner`.
    pub open spec fn at(self, corner: Corner) -> T {
        match corner {
            Corner::TopRight => self.top_right,
            Corner::BottomRight => self.bottom_right,
            Corner::TopLeft => self.top_left,
            Corner::BottomLeft => self.bottom_left,
        }
    }

    /// Builds a quad by calling `f` once per corner, in the order
    /// top-right, bottom-right, top-left, bottom-left.
    pub fn from_fn<F: FnMut(Corner) -> T>(mut f: F) -> (res: Self)
        requires
            forall|c: Corner| call_requires(f, (c,)),
        ensures
            forall|c: Corner| call_ensures(f, (c,), #[trigger] res.at(c)),
    {
        let top_right = f(Corner::TopRight);
        let bottom_right = f(Corner::BottomRight);
        let top_left = f(Corner::TopLeft);
        let bottom_left = f(Corner::BottomLeft);
        let res = SensorQuad { top_right, bottom_right, top_left, bottom_left };
        assert forall|c: Corner| call_ensures(f, (c,), #[trigger] res.at(c)) by {
            match c {
                Corner::TopRight => {},
                Corner::BottomRight => {},
                Corner::TopLeft => {},
                Corner::BottomLeft => {},
            }
        }
        res
    }
    /// Maps each value through `f`, keeping every value at its corner.
    pub fn map<U, F: FnMut(T) -> U>(self, mut f: F) -> (res: SensorQuad<U>)
        requires
            forall|c: Corner| call_requires(f, (#[trigger] self.at(c),)),
        ensures
            forall|c: Corner| call_ensures(f, (self.at(c),), #[trigger] res.at(c)),
    {
        let ghost old_self = self;
        proof {
            assert(call_requires(f, (old_self.at(Corner::TopRight),)));
            assert(call_requires(f, (old_self.at(Corner::BottomRight),)));
            assert(call_requires(f, (old_self.at(Corner::TopLeft),)));
            assert(call_requires(f, (old_self.at(Corner::BottomLeft),)));
        }
        let top_right = f(self.top_right);
        let bottom_right = f(self.bottom_right);
        let top_left = f(self.top_left);
        let bottom_left = f(self.bottom_left);
        let res = SensorQuad { top_right, bottom_right, top_left, bottom_left };
        assert forall|c: Corner| call_ensures(f, (old_self.at(c),), #[trigger] res.at(c)) by {
            match c {
                Corner::TopRight => {},
                Corner::BottomRight => {},
                Corner::TopLeft => {},
                Corner::BottomLeft => {},
            }
        }
        res
    }

    /// Maps each value, by reference, through `f` without consuming the quad.
    pub fn map_ref<U, F: FnMut(&T) -> U>(&self, mut f: F) -> (res: SensorQuad<U>)
        requires
            forall|c: Corner| call_requires(f, (&#[trigger] self.at(c),)),
        ensures
            forall|c: Corner| call_ensures(f, (&self.at(c),), #[trigger] res.at(c)),
    {
        proof {
            assert(call_requires(f, (&self.at(Corner::TopRight),)));
            assert(call_requires(f, (&self.at(Corner::BottomRight),)));
            assert(call_requires(f, (&self.at(Corner::TopLeft),)));
            assert(call_requires(f, (&self.at(Corner::BottomLeft),)));
        }
        let top_right = f(&self.top_right);
        let bottom_right = f(&self.bottom_right);
        let top_left = f(&self.top_left);
        let bottom_left = f(&self.bottom_left);
        let res = SensorQuad { top_right, bottom_right, top_left, bottom_left };
        assert forall|c: Corner| call_ensures(f, (&self.at(c),), #[trigger] res.at(c)) by {
            match c {
                Corner::TopRight => {},
                Corner::BottomRight => {},
                Corner::TopLeft => {},
                Corner::BottomLeft => {},
            }
        }
        res
    }
}

/// Mapping by reference agrees with mapping the values themselves: when `f`
/// gives one result per argument and `g` hands its argument to `f` by
/// reference, what `map_ref` returns with `f` and what `map` returns with
/// `g`, on the same values, are the same quad.
pub proof fn lemma_map_ref_agrees_with_map<T, U, F: FnMut(&T) -> U, G: FnMut(T) -> U>(
    q: SensorQuad<T>,
    f: F,
    g: G,
    by_ref: SensorQuad<U>,
    by_value: SensorQuad<U>,
)
    requires
        forall|x: T, a: U, b: U| #[trigger] call_ensures(f, (&x,), a) && #[trigger] call_ensures(f, (&x,), b) ==> a == b,
        forall|x: T, y: U| #[trigger] call_ensures(g, (x,), y) ==> call_ensures(f, (&x,), y),
        forall|c: Corner| call_ensures(f, (&q.at(c),), #[trigger] by_ref.at(c)),
        forall|c: Corner| call_ensures(g, (q.at(c),), #[trigger] by_value.at(c)),
    ensures
        by_ref == by_value,
{
    assert forall|c: Corner| by_ref.at(c) == by_value.at(c) by {
        assert(call_ensures(f, (&q.at(c),), by_ref.at(c)));
        assert(call_ensures(g, (q.at(c),), by_value.at(c)));
        assert(call_ensures(f, (&q.at(c),), by_value.at(c)));
    }
    assert(by_ref.at(Corner::TopRight) == by_value.at(Corner::TopRight));
    assert(by_ref.at(Corner::BottomRight) == by_value.at(Corner::BottomRight));
    assert(by_ref.at(Corner::TopLeft) == by_value.at(Corner::TopLeft));
    assert(by_ref.at(Corner::BottomLeft) == by_value.at(Corner::BottomLeft));
}

} // verus!
