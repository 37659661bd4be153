//! Handles of several kinds, handed out together.
//!
//! A tuple of handles is handed out one handle after another, from the first
//! to the last. It is not handed out all or nothing: where the session has
//! no room for one of the handles, those before it stay handed out.

use crate::circuit::{CircuitAllocOverflow, CircuitBuilder};
use crate::model::{CircuitView, SymbolKind};
use crate::symbol::Symbol;
use vstd::prelude::*;

verus! {

/// Handles of several kinds that a session hands out in turn.
pub trait SymbolTuple<'id>: Sized {
    /// The kinds of the handles, in order.
    spec fn kinds() -> Seq<SymbolKind>;

    /// The indices of the handles, in order.
    spec fn indices(&self) -> Seq<u32>;

    /// Hands out one handle of each kind, in turn. Where the session has
    /// no room for one of them, this fails, and the handles before that one
    /// stay handed out.
    fn alloc_tuple(builder: &mut CircuitBuilder<'id>) -> (tuple: Result<
        Self,
        CircuitAllocOverflow,
    >)
        ensures
            tuple is Ok <==> old(builder)@.has_room_for(Self::kinds()),
            tuple matches Ok(t) ==> t.indices() == old(builder)@.indices_of(Self::kinds()),
            final(builder)@ == old(builder)@.handed_out(Self::kinds()),
    ;
}

impl<'id, A: Symbol<'id>> SymbolTuple<'id> for (A,) {
    open spec fn kinds() -> Seq<SymbolKind> {
        seq![A::kind()]
    }

    open spec fn indices(&self) -> Seq<u32> {
        seq![self.0.index()]
    }

    fn alloc_tuple(builder: &mut CircuitBuilder<'id>) -> (tuple: Result<
        Self,
        CircuitAllocOverflow,
    >) {
        proof {
            reveal_with_fuel(CircuitView::has_room_for, 2);
            reveal_with_fuel(CircuitView::handed_out, 2);
            reveal_with_fuel(CircuitView::indices_of, 2);
        }
        let a: A = builder.allocate()?;
        assert(seq![a.index()] =~= old(builder)@.indices_of(Self::kinds()));
        Ok((a,))
    }
}

impl<'id, A: Symbol<'id>, B: Symbol<'id>> SymbolTuple<'id> for (A, B) {
    open spec fn kinds() -> Seq<SymbolKind> {
        seq![A::kind(), B::kind()]
    }

    open spec fn indices(&self) -> Seq<u32> {
        seq![self.0.index(), self.1.index()]
    }

    fn alloc_tuple(builder: &mut CircuitBuilder<'id>) -> (tuple: Result<
        Self,
        CircuitAllocOverflow,
    >) {
        proof {
            reveal_with_fuel(CircuitView::has_room_for, 3);
            reveal_with_fuel(CircuitView::handed_out, 3);
            reveal_with_fuel(CircuitView::indices_of, 3);
        }
        let a: A = builder.allocate()?;
        let b: B = builder.allocate()?;
        assert(seq![a.index(), b.index()] =~= old(builder)@.indices_of(Self::kinds()));
        Ok((a, b))
    }
}

impl<'id, A: Symbol<'id>, B: Symbol<'id>, C: Symbol<'id>> SymbolTuple<'id> for (A, B, C) {
    open spec fn kinds() -> Seq<SymbolKind> {
        seq![A::kind(), B::kind(), C::kind()]
    }

    open spec fn indices(&self) -> Seq<u32> {
        seq![self.0.index(), self.1.index(), self.2.index()]
    }

    fn alloc_tuple(builder: &mut CircuitBuilder<'id>) -> (tuple: Result<
        Self,
        CircuitAllocOverflow,
    >) {
        proof {
            reveal_with_fuel(CircuitView::has_room_for, 4);
            reveal_with_fuel(CircuitView::handed_out, 4);
            reveal_with_fuel(CircuitView::indices_of, 4);
        }
        let a: A = builder.allocate()?;
        let b: B = builder.allocate()?;
        let c: C = builder.allocate()?;
        assert(seq![a.index(), b.index(), c.index()] =~= old(builder)@.indices_of(Self::kinds()));
        Ok((a, b, c))
    }
}

impl<
    'id,
    A: Symbol<'id>,
    B: Symbol<'id>,
    C: Symbol<'id>,
    D: Symbol<'id>,
> SymbolTuple<'id> for (A, B, C, D) {
    open spec fn kinds() -> Seq<SymbolKind> {
        seq![A::kind(), B::kind(), C::kind(), D::kind()]
    }

    open spec fn indices(&self) -> Seq<u32> {
        seq![self.0.index(), self.1.index(), self.2.index(), self.3.index()]
    }

    fn alloc_tuple(builder: &mut CircuitBuilder<'id>) -> (tuple: Result<
        Self,
        CircuitAllocOverflow,
    >) {
        proof {
            reveal_with_fuel(CircuitView::has_room_for, 5);
            reveal_with_fuel(CircuitView::handed_out, 5);
            reveal_with_fuel(CircuitView::indices_of, 5);
        }
        let a: A = builder.allocate()?;
        let b: B = builder.allocate()?;
        let c: C = builder.allocate()?;
        let d: D = builder.allocate()?;
        assert(seq![
            a.index(),
            b.index(),
            c.index(),
            d.index(),
        ] =~= old(builder)@.indices_of(Self::kinds()));
        Ok((a, b, c, d))
    }
}

impl<
    'id,
    A: Symbol<'id>,
    B: Symbol<'id>,
    C: Symbol<'id>,
    D: Symbol<'id>,
    E: Symbol<'id>,
> SymbolTuple<'id> for (A, B, C, D, E) {
    open spec fn kinds() -> Seq<SymbolKind> {
        seq![A::kind(), B::kind(), C::kind(), D::kind(), E::kind()]
    }

    open spec fn indices(&self) -> Seq<u32> {
        seq![self.0.index(), self.1.index(), self.2.index(), self.3.index(), self.4.index()]
    }

    fn alloc_tuple(builder: &mut CircuitBuilder<'id>) -> (tuple: Result<
        Self,
        CircuitAllocOverflow,
    >) {
        proof {
            reveal_with_fuel(CircuitView::has_room_for, 6);
            reveal_with_fuel(CircuitView::handed_out, 6);
            reveal_with_fuel(CircuitView::indices_of, 6);
        }
        let a: A = builder.allocate()?;
        let b: B = builder.allocate()?;
        let c: C = builder.allocate()?;
        let d: D = builder.allocate()?;
        let e: E = builder.allocate()?;
        assert(seq![
            a.index(),
            b.index(),
            c.index(),
            d.index(),
            e.index(),
        ] =~= old(builder)@.indices_of(Self::kinds()));
        Ok((a, b, c, d, e))
    }
}

impl<
    'id,
    A: Symbol<'id>,
    B: Symbol<'id>,
    C: Symbol<'id>,
    D: Symbol<'id>,
    E: Symbol<'id>,
    F: Symbol<'id>,
> SymbolTuple<'id> for (A, B, C, D, E, F) {
    open spec fn kinds() -> Seq<SymbolKind> {
        seq![A::kind(), B::kind(), C::kind(), D::kind(), E::kind(), F::kind()]
    }

    open spec fn indices(&self) -> Seq<u32> {
        seq![
            self.0.index(),
            self.1.index(),
            self.2.index(),
            self.3.index(),
            self.4.index(),
            self.5.index(),
        ]
    }

    fn alloc_tuple(builder: &mut CircuitBuilder<'id>) -> (tuple: Result<
        Self,
        CircuitAllocOverflow,
    >) {
        proof {
            reveal_with_fuel(CircuitView::has_room_for, 7);
            reveal_with_fuel(CircuitView::handed_out, 7);
            reveal_with_fuel(CircuitView::indices_of, 7);
        }
        let a: A = builder.allocate()?;
        let b: B = builder.allocate()?;
        let c: C = builder.allocate()?;
        let d: D = builder.allocate()?;
        let e: E = builder.allocate()?;
        let f: F = builder.allocate()?;
        assert(seq![
            a.index(),
            b.index(),
            c.index(),
            d.index(),
            e.index(),
            f.index(),
        ] =~= old(builder)@.indices_of(Self::kinds()));
        Ok((a, b, c, d, e, f))
    }
}

impl<
    'id,
    A: Symbol<'id>,
    B: Symbol<'id>,
    C: Symbol<'id>,
    D: Symbol<'id>,
    E: Symbol<'id>,
    F: Symbol<'id>,
    G: Symbol<'id>,
> SymbolTuple<'id> for (A, B, C, D, E, F, G) {
    open spec fn kinds() -> Seq<SymbolKind> {
        seq![A::kind(), B::kind(), C::kind(), D::kind(), E::kind(), F::kind(), G::kind()]
    }

    open spec fn indices(&self) -> Seq<u32> {
        seq![
            self.0.index(),
            self.1.index(),
            self.2.index(),
            self.3.index(),
            self.4.index(),
            self.5.index(),
            self.6.index(),
        ]
    }

    fn alloc_tuple(builder: &mut CircuitBuilder<'id>) -> (tuple: Result<
        Self,
        CircuitAllocOverflow,
    >) {
        proof {
            reveal_with_fuel(CircuitView::has_room_for, 8);
            reveal_with_fuel(CircuitView::handed_out, 8);
            reveal_with_fuel(CircuitView::indices_of, 8);
        }
        let a: A = builder.allocate()?;
        let b: B = builder.allocate()?;
        let c: C = builder.allocate()?;
        let d: D = builder.allocate()?;
        let e: E = builder.allocate()?;
        let f: F = builder.allocate()?;
        let g: G = builder.allocate()?;
        assert(seq![
            a.index(),
            b.index(),
            c.index(),
            d.index(),
            e.index(),
            f.index(),
            g.index(),
        ] =~= old(builder)@.indices_of(Self::kinds()));
        Ok((a, b, c, d, e, f, g))
    }
}

impl<
    'id,
    A: Symbol<'id>,
    B: Symbol<'id>,
    C: Symbol<'id>,
    D: Symbol<'id>,
    E: Symbol<'id>,
    F: Symbol<'id>,
    G: Symbol<'id>,
    H: Symbol<'id>,
> SymbolTuple<'id> for (A, B, C, D, E, F, G, H) {
    open spec fn kinds() -> Seq<SymbolKind> {
        seq![A::kind(), B::kind(), C::kind(), D::kind(), E::kind(), F::kind(), G::kind(), H::kind()]
    }

    open spec fn indices(&self) -> Seq<u32> {
        seq![
            self.0.index(),
            self.1.index(),
            self.2.index(),
            self.3.index(),
            self.4.index(),
            self.5.index(),
            self.6.index(),
            self.7.index(),
        ]
    }

    fn alloc_tuple(builder: &mut CircuitBuilder<'id>) -> (tuple: Result<
        Self,
        CircuitAllocOverflow,
    >) {
        proof {
            reveal_with_fuel(CircuitView::has_room_for, 9);
            reveal_with_fuel(CircuitView::handed_out, 9);
            reveal_with_fuel(CircuitView::indices_of, 9);
        }
        let a: A = builder.allocate()?;
        let b: B = builder.allocate()?;
        let c: C = builder.allocate()?;
        let d: D = builder.allocate()?;
        let e: E = builder.allocate()?;
        let f: F = builder.allocate()?;
        let g: G = builder.allocate()?;
        let h: H = builder.allocate()?;
        assert(seq![
            a.index(),
            b.index(),
            c.index(),
            d.index(),
            e.index(),
            f.index(),
            g.index(),
            h.index(),
        ] =~= old(builder)@.indices_of(Self::kinds()));
        Ok((a, b, c, d, e, f, g, h))
    }
}

impl<
    'id,
    A: Symbol<'id>,
    B: Symbol<'id>,
    C: Symbol<'id>,
    D: Symbol<'id>,
    E: Symbol<'id>,
    F: Symbol<'id>,
    G: Symbol<'id>,
    H: Symbol<'id>,
    I: Symbol<'id>,
> SymbolTuple<'id> for (A, B, C, D, E, F, G, H, I) {
    open spec fn kinds() -> Seq<SymbolKind> {
        seq![
            A::kind(),
            B::kind(),
            C::kind(),
            D::kind(),
            E::kind(),
            F::kind(),
            G::kind(),
            H::kind(),
            I::kind(),
        ]
    }

    open spec fn indices(&self) -> Seq<u32> {
        seq![
            self.0.index(),
            self.1.index(),
            self.2.index(),
            self.3.index(),
            self.4.index(),
            self.5.index(),
            self.6.index(),
            self.7.index(),
            self.8.index(),
        ]
    }

    fn alloc_tuple(builder: &mut CircuitBuilder<'id>) -> (tuple: Result<
        Self,
        CircuitAllocOverflow,
    >) {
        proof {
            reveal_with_fuel(CircuitView::has_room_for, 10);
            reveal_with_fuel(CircuitView::handed_out, 10);
            reveal_with_fuel(CircuitView::indices_of, 10);
        }
        let a: A = builder.allocate()?;
        let b: B = builder.allocate()?;
        let c: C = builder.allocate()?;
        let d: D = builder.allocate()?;
        let e: E = builder.allocate()?;
        let f: F = builder.allocate()?;
        let g: G = builder.allocate()?;
        let h: H = builder.allocate()?;
        let i: I = builder.allocate()?;
        assert(seq![
            a.index(),
            b.index(),
            c.index(),
            d.index(),
            e.index(),
            f.index(),
            g.index(),
            h.index(),
            i.index(),
        ] =~= old(builder)@.indices_of(Self::kinds()));
        Ok((a, b, c, d, e, f, g, h, i))
    }
}

impl<
    'id,
    A: Symbol<'id>,
    B: Symbol<'id>,
    C: Symbol<'id>,
    D: Symbol<'id>,
    E: Symbol<'id>,
    F: Symbol<'id>,
    G: Symbol<'id>,
    H: Symbol<'id>,
    I: Symbol<'id>,
    J: Symbol<'id>,
> SymbolTuple<'id> for (A, B, C, D, E, F, G, H, I, J) {
    open spec fn kinds() -> Seq<SymbolKind> {
        seq![
            A::kind(),
            B::kind(),
            C::kind(),
            D::kind(),
            E::kind(),
            F::kind(),
            G::kind(),
            H::kind(),
            I::kind(),
            J::kind(),
        ]
    }

    open spec fn indices(&self) -> Seq<u32> {
        seq![
            self.0.index(),
            self.1.index(),
            self.2.index(),
            self.3.index(),
            self.4.index(),
            self.5.index(),
            self.6.index(),
            self.7.index(),
            self.8.index(),
            self.9.index(),
        ]
    }

    fn alloc_tuple(builder: &mut CircuitBuilder<'id>) -> (tuple: Result<
        Self,
        CircuitAllocOverflow,
    >) {
        proof {
            reveal_with_fuel(CircuitView::has_room_for, 11);
            reveal_with_fuel(CircuitView::handed_out, 11);
            reveal_with_fuel(CircuitView::indices_of, 11);
        }
        let a: A = builder.allocate()?;
        let b: B = builder.allocate()?;
        let c: C = builder.allocate()?;
        let d: D = builder.allocate()?;
        let e: E = builder.allocate()?;
        let f: F = builder.allocate()?;
        let g: G = builder.allocate()?;
        let h: H = builder.allocate()?;
        let i: I = builder.allocate()?;
        let j: J = builder.allocate()?;
        assert(seq![
            a.index(),
            b.index(),
            c.index(),
            d.index(),
            e.index(),
            f.index(),
            g.index(),
            h.index(),
            i.index(),
            j.index(),
        ] =~= old(builder)@.indices_of(Self::kinds()));
        Ok((a, b, c, d, e, f, g, h, i, j))
    }
}

impl<
    'id,
    A: Symbol<'id>,
    B: Symbol<'id>,
    C: Symbol<'id>,
    D: Symbol<'id>,
    E: Symbol<'id>,
    F: Symbol<'id>,
    G: Symbol<'id>,
    H: Symbol<'id>,
    I: Symbol<'id>,
    J: Symbol<'id>,
    K: Symbol<'id>,
> SymbolTuple<'id> for (A, B, C, D, E, F, G, H, I, J, K) {
    open spec fn kinds() -> Seq<SymbolKind> {
        seq![
            A::kind(),
            B::kind(),
            C::kind(),
            D::kind(),
            E::kind(),
            F::kind(),
            G::kind(),
            H::kind(),
            I::kind(),
            J::kind(),
            K::kind(),
        ]
    }

    open spec fn indices(&self) -> Seq<u32> {
        seq![
            self.0.index(),
            self.1.index(),
            self.2.index(),
            self.3.index(),
            self.4.index(),
            self.5.index(),
            self.6.index(),
            self.7.index(),
            self.8.index(),
            self.9.index(),
            self.10.index(),
        ]
    }

    fn alloc_tuple(builder: &mut CircuitBuilder<'id>) -> (tuple: Result<
        Self,
        CircuitAllocOverflow,
    >) {
        proof {
            reveal_with_fuel(CircuitView::has_room_for, 12);
            reveal_with_fuel(CircuitView::handed_out, 12);
            reveal_with_fuel(CircuitView::indices_of, 12);
        }
        let a: A = builder.allocate()?;
        let b: B = builder.allocate()?;
        let c: C = builder.allocate()?;
        let d: D = builder.allocate()?;
        let e: E = builder.allocate()?;
        let f: F = builder.allocate()?;
        let g: G = builder.allocate()?;
        let h: H = builder.allocate()?;
        let i: I = builder.allocate()?;
        let j: J = builder.allocate()?;
        let k: K = builder.allocate()?;
        assert(seq![
            a.index(),
            b.index(),
            c.index(),
            d.index(),
            e.index(),
            f.index(),
            g.index(),
            h.index(),
            i.index(),
            j.index(),
            k.index(),
        ] =~= old(builder)@.indices_of(Self::kinds()));
        Ok((a, b, c, d, e, f, g, h, i, j, k))
    }
}

impl<
    'id,
    A: Symbol<'id>,
    B: Symbol<'id>,
    C: Symbol<'id>,
    D: Symbol<'id>,
    E: Symbol<'id>,
    F: Symbol<'id>,
    G: Symbol<'id>,
    H: Symbol<'id>,
    I: Symbol<'id>,
    J: Symbol<'id>,
    K: Symbol<'id>,
    L: Symbol<'id>,
> SymbolTuple<'id> for (A, B, C, D, E, F, G, H, I, J, K, L) {
    open spec fn kinds() -> Seq<SymbolKind> {
        seq![
            A::kind(),
            B::kind(),
            C::kind(),
            D::kind(),
            E::kind(),
            F::kind(),
            G::kind(),
            H::kind(),
            I::kind(),
            J::kind(),
            K::kind(),
            L::kind(),
        ]
    }

    open spec fn indices(&self) -> Seq<u32> {
        seq![
            self.0.index(),
            self.1.index(),
            self.2.index(),
            self.3.index(),
            self.4.index(),
            self.5.index(),
            self.6.index(),
            self.7.index(),
            self.8.index(),
            self.9.index(),
            self.10.index(),
            self.11.index(),
        ]
    }

    fn alloc_tuple(builder: &mut CircuitBuilder<'id>) -> (tuple: Result<
        Self,
        CircuitAllocOverflow,
    >) {
        proof {
            reveal_with_fuel(CircuitView::has_room_for, 13);
            reveal_with_fuel(CircuitView::handed_out, 13);
            reveal_with_fuel(CircuitView::indices_of, 13);
        }
        let a: A = builder.allocate()?;
        let b: B = builder.allocate()?;
        let c: C = builder.allocate()?;
        let d: D = builder.allocate()?;
        let e: E = builder.allocate()?;
        let f: F = builder.allocate()?;
        let g: G = builder.allocate()?;
        let h: H = builder.allocate()?;
        let i: I = builder.allocate()?;
        let j: J = builder.allocate()?;
        let k: K = builder.allocate()?;
        let l: L = builder.allocate()?;
        assert(seq![
            a.index(),
            b.index(),
            c.index(),
            d.index(),
            e.index(),
            f.index(),
            g.index(),
            h.index(),
            i.index(),
            j.index(),
            k.index(),
            l.index(),
        ] =~= old(builder)@.indices_of(Self::kinds()));
        Ok((a, b, c, d, e, f, g, h, i, j, k, l))
    }
}

} // verus!
