use crate::ir::data::TypeDef;
use crate::ir::expr::Expr;
use crate::ir::expr::ExprId;
use crate::ir::pattern::Pattern;
use crate::ir::pattern::PatternId;
use crate::ir::type_signature::TypeSignature;
use crate::location::ItemInfo;
use crate::location::LocationId;
use crate::util::ItemContainer;
use vstd::prelude::*;

verus! {

broadcast use vstd::std_specs::btree::group_btree_axioms;

/// The expressions, patterns, type signatures and type definitions of a
/// program of the intermediate representation.
#[derive(Debug)]
pub struct Program {
    pub exprs: ItemContainer<ItemInfo<Expr>>,
    pub patterns: ItemContainer<ItemInfo<Pattern>>,
    pub type_signatures: ItemContainer<ItemInfo<TypeSignature>>,
    pub typedefs: ItemContainer<TypeDef>,
}

impl Program {
    /// Whether the program has an expression under `id`.
    pub open spec fn has_expr(&self, id: ExprId) -> bool {
        self.exprs.items@.contains_key(id.id)
    }

    /// The expression under `id`.
    pub open spec fn expr(&self, id: ExprId) -> Expr {
        self.exprs.items@[id.id].item
    }

    /// Whether the program has a pattern under `id`.
    pub open spec fn has_pattern(&self, id: PatternId) -> bool {
        self.patterns.items@.contains_key(id.id)
    }

    /// The pattern under `id`.
    pub open spec fn pattern(&self, id: PatternId) -> Pattern {
        self.patterns.items@[id.id].item
    }

    pub fn new() -> (r: Program)
        ensures
            r.exprs.id.value == 0,
            r.exprs.items@.is_empty(),
            r.patterns.id.value == 0,
            r.patterns.items@.is_empty(),
            r.type_signatures.id.value == 0,
            r.type_signatures.items@.is_empty(),
            r.typedefs.id.value == 0,
            r.typedefs.items@.is_empty(),
    {
        let r = Program {
            exprs: ItemContainer::new(),
            patterns: ItemContainer::new(),
            type_signatures: ItemContainer::new(),
            typedefs: ItemContainer::new(),
        };
        r
    }

    /// Files `pattern` under a fresh identifier, which it returns.
    pub fn add_pattern(&mut self, pattern: Pattern, location_id: LocationId) -> (r: PatternId)
        requires
            old(self).patterns.id.value < usize::MAX,
        ensures
            r.id == old(self).patterns.id.value,
            final(self).patterns.id.value == old(self).patterns.id.value + 1,
            final(self).patterns.items@ == old(self).patterns.items@.insert(r.id, ItemInfo { item: pattern, location_id }),
            final(self).exprs == old(self).exprs,
            final(self).type_signatures == old(self).type_signatures,
            final(self).typedefs == old(self).typedefs,
    {
        let id = self.patterns.get_id();
        self.patterns.add_item(id, ItemInfo::new(pattern, location_id));
        PatternId { id: id }
    }

    /// The pattern under `id`, which must be there.
    pub fn get_pattern(&self, id: PatternId) -> (r: &Pattern)
        requires
            self.has_pattern(id),
        ensures
            *r == self.pattern(id),
    {
        &self.patterns.get(id.id).item
    }

    /// Files `expr` under a fresh identifier, which it returns.
    pub fn add_expr(&mut self, expr: Expr, location_id: LocationId) -> (r: ExprId)
        requires
            old(self).exprs.id.value < usize::MAX,
        ensures
            r.id == old(self).exprs.id.value,
            final(self).exprs.id.value == old(self).exprs.id.value + 1,
            final(self).exprs.items@ == old(self).exprs.items@.insert(r.id, ItemInfo { item: expr, location_id }),
            final(self).patterns == old(self).patterns,
            final(self).type_signatures == old(self).type_signatures,
            final(self).typedefs == old(self).typedefs,
    {
        let id = self.exprs.get_id();
        self.exprs.add_item(id, ItemInfo::new(expr, location_id));
        ExprId { id: id }
    }

    /// The expression under `id`, which must be there.
    pub fn get_expr(&self, id: ExprId) -> (r: &Expr)
        requires
            self.has_expr(id),
        ensures
            *r == self.expr(id),
    {
        &self.exprs.get(id.id).item
    }
}

} // verus!
