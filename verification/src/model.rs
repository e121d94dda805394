//! Mathematical model of decoded symbols.
//!
//! Contracts throughout the crate speak of these ghost values rather than
//! of the executable trees directly: a [`TypeView`] mirrors a
//! [`GluType`](crate::types::GluType) with every `String` replaced by its
//! `Seq<char>` view and every `Vec` by a `Seq`.

use vstd::prelude::*;
use crate::types::{GluType, GluFunction, GluGlobal, GluSymbol, GlobalKind};

verus! {

/// Ghost mirror of [`GluType`].
pub enum TypeView {
    Void,
    Bool,
    Char,
    Int { signed: bool, width: u32 },
    Float { width: u32 },
    Pointer(Box<TypeView>),
    StaticArray { size: usize, element_type: Box<TypeView> },
    DynamicArray,
    Function { return_type: Box<TypeView>, params: Seq<TypeView> },
    Struct { mod_path: Seq<Seq<char>>, name: Seq<char> },
    Enum { mod_path: Seq<Seq<char>>, name: Seq<char> },
    Null,
}

/// Ghost mirror of [`GluSymbol`].
pub enum SymbolView {
    Function { mod_path: Seq<Seq<char>>, name: Seq<char>, func_type: TypeView },
    Global { mod_path: Seq<Seq<char>>, name: Seq<char>, kind: GlobalKind, var_type: TypeView },
}

/// The model of an executable type tree.
pub open spec fn type_view(t: GluType) -> TypeView
    decreases t,
{
    match t {
        GluType::Void => TypeView::Void,
        GluType::Bool => TypeView::Bool,
        GluType::Char => TypeView::Char,
        GluType::Int { signed, width } => TypeView::Int { signed, width },
        GluType::Float { width } => TypeView::Float { width },
        GluType::Pointer(pointee) => TypeView::Pointer(Box::new(type_view(*pointee))),
        GluType::StaticArray { size, element_type } => TypeView::StaticArray {
            size,
            element_type: Box::new(type_view(*element_type)),
        },
        GluType::DynamicArray => TypeView::DynamicArray,
        GluType::Function { return_type, params } => TypeView::Function {
            return_type: Box::new(type_view(*return_type)),
            params: types_view(params@),
        },
        GluType::Struct { mod_path, name } => TypeView::Struct {
            mod_path: mod_path.deep_view(),
            name: name@,
        },
        GluType::Enum { mod_path, name } => TypeView::Enum {
            mod_path: mod_path.deep_view(),
            name: name@,
        },
        GluType::Null => TypeView::Null,
    }
}

/// The models of a sequence of executable type trees, in order.
pub open spec fn types_view(ts: Seq<GluType>) -> Seq<TypeView>
    decreases ts,
{
    if ts.len() == 0 {
        Seq::empty()
    } else {
        seq![type_view(ts[0])] + types_view(ts.subrange(1, ts.len() as int))
    }
}

/// The model of an executable function symbol.
pub open spec fn function_view(f: GluFunction) -> SymbolView {
    SymbolView::Function {
        mod_path: f.mod_path.deep_view(),
        name: f.name@,
        func_type: type_view(f.func_type),
    }
}

/// The model of an executable global symbol.
pub open spec fn global_view(g: GluGlobal) -> SymbolView {
    SymbolView::Global {
        mod_path: g.mod_path.deep_view(),
        name: g.name@,
        kind: g.kind,
        var_type: type_view(g.var_type),
    }
}

/// The model of an executable symbol.
pub open spec fn symbol_view(s: GluSymbol) -> SymbolView {
    match s {
        GluSymbol::Function(f) => function_view(f),
        GluSymbol::Global(g) => global_view(g),
    }
}

/// `types_view` maps the sequence pointwise.
pub proof fn lemma_types_view_index(ts: Seq<GluType>)
    ensures
        types_view(ts).len() == ts.len(),
        forall|i: int| 0 <= i < ts.len() ==> types_view(ts)[i] == type_view(#[trigger] ts[i]),
    decreases ts,
{
    if ts.len() > 0 {
        let rest = ts.subrange(1, ts.len() as int);
        lemma_types_view_index(rest);
        assert forall|i: int| 0 <= i < ts.len() implies types_view(ts)[i] == type_view(
            #[trigger] ts[i],
        ) by {
            if i > 0 {
                assert(rest[i - 1] == ts[i]);
                assert(types_view(ts)[i] == types_view(rest)[i - 1]);
            }
        }
    }
}

/// Appending one element to a sequence of types appends its model.
pub proof fn lemma_types_view_push(ts: Seq<GluType>, t: GluType)
    ensures
        types_view(ts.push(t)) == types_view(ts).push(type_view(t)),
{
    lemma_types_view_index(ts.push(t));
    lemma_types_view_index(ts);
    assert forall|i: int| 0 <= i < ts.push(t).len() implies #[trigger] types_view(ts.push(t))[i]
        == types_view(ts).push(type_view(t))[i] by {
        if i < ts.len() {
            assert(ts.push(t)[i] == ts[i]);
        } else {
            assert(ts.push(t)[i] == t);
        }
    }
    assert(types_view(ts.push(t)) =~= types_view(ts).push(type_view(t)));
}

} // verus!
