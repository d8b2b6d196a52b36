//! The pool that the constants of a script are collected in.
use vstd::prelude::*;

use crate::ast::views;

verus! {

/// A constant of a script: a string, or the bits of a double.
#[derive(Clone, Debug)]
pub enum Constant {
    Str(String),
    Number(u64),
}

pub enum ConstantView {
    Str(Seq<char>),
    Number(u64),
}

impl View for Constant {
    type V = ConstantView;

    open spec fn view(&self) -> ConstantView {
        match self {
            Constant::Str(s) => ConstantView::Str(s@),
            Constant::Number(n) => ConstantView::Number(*n),
        }
    }
}

impl Constant {
    fn same(&self, other: &Constant) -> (same: bool)
        ensures
            same == (self@ == other@),
    {
        match (self, other) {
            (Constant::Str(a), Constant::Str(b)) => *a == *b,
            (Constant::Number(a), Constant::Number(b)) => *a == *b,
            _ => false,
        }
    }
}

/// The constants of a script, referred to by index.
#[derive(Debug)]
pub struct ConstantPool {
    pub constants: Vec<Constant>,
}

impl View for ConstantPool {
    type V = Seq<ConstantView>;

    open spec fn view(&self) -> Seq<ConstantView> {
        views(self.constants@)
    }
}

/// Fills a pool with constants, each of them once.
#[derive(Debug)]
pub struct ConstantPoolBuilder {
    pub pool: ConstantPool,
}

impl View for ConstantPoolBuilder {
    type V = Seq<ConstantView>;

    open spec fn view(&self) -> Seq<ConstantView> {
        self.pool@
    }
}

/// The pool after a constant has been added: a constant that is there already is shared.
pub open spec fn with_constant(pool: Seq<ConstantView>, constant: ConstantView) -> Seq<
    ConstantView,
> {
    if pool.contains(constant) {
        pool
    } else {
        pool.push(constant)
    }
}

/// The index of a constant in a pool that has it.
pub open spec fn constant_position(pool: Seq<ConstantView>, constant: ConstantView) -> int {
    choose|i: int| 0 <= i < pool.len() && pool[i] == constant
}

impl ConstantPoolBuilder {
    pub fn new() -> (builder: Self)
        ensures
            builder@ == Seq::<ConstantView>::empty(),
    {
        let builder = ConstantPoolBuilder { pool: ConstantPool { constants: Vec::new() } };
        assert(builder@ =~= Seq::<ConstantView>::empty());
        builder
    }

    fn add_constant(&mut self, constant: Constant) -> (index: usize)
        requires
            old(self)@.no_duplicates(),
        ensures
            final(self)@ == with_constant(old(self)@, constant@),
            index == constant_position(final(self)@, constant@),
            index < final(self)@.len(),
            final(self)@[index as int] == constant@,
            final(self)@.no_duplicates(),
    {
        let mut i: usize = 0;
        while i < self.pool.constants.len()
            invariant
                i <= self@.len(),
                self@.len() == self.pool.constants@.len(),
                self@.no_duplicates(),
                forall|j: int| 0 <= j < i ==> #[trigger] self@[j] != constant@,
            decreases self@.len() - i,
        {
            if self.pool.constants[i].same(&constant) {
                assert(self@[i as int] == constant@);
                return i;
            }
            i = i + 1;
        }
        proof {
            crate::ast::lemma_views_push(self.pool.constants@, constant);
        }
        let ghost view = constant@;
        let index: usize = self.pool.constants.len();
        self.pool.constants.push(constant);
        assert(self@[index as int] == view);
        index
    }

    pub fn add_string(&mut self, s: &str) -> (index: usize)
        requires
            old(self)@.no_duplicates(),
        ensures
            final(self)@ == with_constant(old(self)@, ConstantView::Str(s@)),
            index == constant_position(final(self)@, ConstantView::Str(s@)),
            index < final(self)@.len(),
            final(self)@.no_duplicates(),
    {
        self.add_constant(Constant::Str(s.to_owned()))
    }

    /// Adds a number that isn't zero or one, given as the bits of a double.
    pub fn add_number(&mut self, bits: u64) -> (index: usize)
        requires
            old(self)@.no_duplicates(),
        ensures
            final(self)@ == with_constant(old(self)@, ConstantView::Number(bits)),
            index == constant_position(final(self)@, ConstantView::Number(bits)),
            index < final(self)@.len(),
            final(self)@.no_duplicates(),
    {
        self.add_constant(Constant::Number(bits))
    }
}

/// A constant that is added is in the pool. Every constant keeps its index, nothing else is added,
/// and a pool without duplicates stays one.
pub proof fn law_added_constant(pool: Seq<ConstantView>, constant: ConstantView)
    requires
        pool.no_duplicates(),
    ensures
        ({
            let after = with_constant(pool, constant);
            &&& after.contains(constant)
            &&& after.no_duplicates()
            &&& after.len() == pool.len() + (if pool.contains(constant) {
                0int
            } else {
                1int
            })
            &&& forall|i: int| 0 <= i < pool.len() ==> after[i] == pool[i]
        }),
{
    if !pool.contains(constant) {
        assert(pool.push(constant)[pool.len() as int] == constant);
    }
}

/// The index of a constant is where the pool has it, and where it has nothing else.
pub proof fn law_constant_position(pool: Seq<ConstantView>, constant: ConstantView, i: int)
    requires
        pool.no_duplicates(),
        0 <= i < pool.len(),
    ensures
        pool[i] == constant <==> pool.contains(constant) && constant_position(pool, constant) == i,
{
}

/// Adding a constant again gives its index again and changes nothing, and a constant that is added
/// later doesn't move it.
pub proof fn law_constant_is_shared(
    pool: Seq<ConstantView>,
    constant: ConstantView,
    other: ConstantView,
)
    requires
        pool.no_duplicates(),
    ensures
        ({
            let first = with_constant(pool, constant);
            let second = with_constant(first, other);
            &&& with_constant(first, constant) == first
            &&& with_constant(second, constant) == second
            &&& constant_position(second, constant) == constant_position(first, constant)
        }),
{
    law_added_constant(pool, constant);
    let first = with_constant(pool, constant);
    law_added_constant(first, other);
    let second = with_constant(first, other);
    let i = constant_position(first, constant);
    assert(second[i] == constant);
    law_constant_position(second, constant, i);
}

/// Texts and numbers are told apart, and so are different texts and different numbers.
pub proof fn law_constants_differ(a: Constant, b: Constant)
    ensures
        a@ == b@ <==> match (a, b) {
            (Constant::Str(s), Constant::Str(t)) => s@ == t@,
            (Constant::Number(m), Constant::Number(n)) => m == n,
            _ => false,
        },
{
}

/// A pool holds the view of each of its constants, in their order.
pub proof fn law_pool_view(pool: ConstantPool, i: int)
    requires
        0 <= i < pool.constants@.len(),
    ensures
        pool@.len() == pool.constants@.len(),
        pool@[i] == pool.constants@[i]@,
        (ConstantPoolBuilder { pool })@ == pool@,
{
}

} // verus!
