//! Go struct projections of C++ model classes with paired getters and setters.
use vstd::prelude::*;

use crate::kind::IrTypeKind;

verus! {

#[derive(Debug, Clone)]
pub struct ModelProjection {
    pub cpp_type: String,
    pub go_name: String,
    pub handle_name: String,
    pub constructor_symbol: String,
    pub destructor_symbol: String,
    pub fields: Vec<ModelProjectionField>,
}

#[derive(Debug, Clone)]
pub struct ModelProjectionField {
    pub go_name: String,
    pub go_type: String,
    pub getter_symbol: String,
    pub setter_symbol: String,
    pub return_kind: IrTypeKind,
}

pub struct ModelProjectionFieldV {
    pub go_name: Seq<char>,
    pub go_type: Seq<char>,
    pub getter_symbol: Seq<char>,
    pub setter_symbol: Seq<char>,
    pub return_kind: IrTypeKind,
}

pub struct ModelProjectionV {
    pub cpp_type: Seq<char>,
    pub go_name: Seq<char>,
    pub handle_name: Seq<char>,
    pub constructor_symbol: Seq<char>,
    pub destructor_symbol: Seq<char>,
    pub fields: Seq<ModelProjectionFieldV>,
}

impl View for ModelProjectionField {
    type V = ModelProjectionFieldV;

    open spec fn view(&self) -> ModelProjectionFieldV {
        ModelProjectionFieldV {
            go_name: self.go_name@,
            go_type: self.go_type@,
            getter_symbol: self.getter_symbol@,
            setter_symbol: self.setter_symbol@,
            return_kind: self.return_kind,
        }
    }
}

pub open spec fn fields_view(v: Seq<ModelProjectionField>) -> Seq<ModelProjectionFieldV> {
    v.map_values(|f: ModelProjectionField| f@)
}

impl View for ModelProjection {
    type V = ModelProjectionV;

    open spec fn view(&self) -> ModelProjectionV {
        ModelProjectionV {
            cpp_type: self.cpp_type@,
            go_name: self.go_name@,
            handle_name: self.handle_name@,
            constructor_symbol: self.constructor_symbol@,
            destructor_symbol: self.destructor_symbol@,
            fields: fields_view(self.fields@),
        }
    }
}

pub open spec fn projections_view(v: Seq<ModelProjection>) -> Seq<ModelProjectionV> {
    v.map_values(|p: ModelProjection| p@)
}

impl ModelProjectionField {
    pub fn copy(&self) -> (r: ModelProjectionField)
        ensures
            r@ == self@,
    {
        ModelProjectionField {
            go_name: self.go_name.clone(),
            go_type: self.go_type.clone(),
            getter_symbol: self.getter_symbol.clone(),
            setter_symbol: self.setter_symbol.clone(),
            return_kind: self.return_kind,
        }
    }
}

impl ModelProjection {
    pub fn copy(&self) -> (r: ModelProjection)
        ensures
            r@ == self@,
    {
        let mut fields: Vec<ModelProjectionField> = Vec::new();
        let mut i: usize = 0;
        while i < self.fields.len()
            invariant
                i <= self.fields.len(),
                fields_view(fields@) =~= fields_view(self.fields@.take(i as int)),
            decreases self.fields.len() - i,
        {
            let f = self.fields[i].copy();
            let ghost before = fields@;
            fields.push(f);
            assert(self.fields@.take(i + 1) =~= self.fields@.take(i as int).push(self.fields@[i as int]));
            assert(fields_view(fields@) =~= fields_view(before).push(f@));
            i = i + 1;
        }
        assert(self.fields@.take(i as int) =~= self.fields@);
        ModelProjection {
            cpp_type: self.cpp_type.clone(),
            go_name: self.go_name.clone(),
            handle_name: self.handle_name.clone(),
            constructor_symbol: self.constructor_symbol.clone(),
            destructor_symbol: self.destructor_symbol.clone(),
            fields,
        }
    }
}

pub fn copy_projections(v: &Vec<ModelProjection>) -> (r: Vec<ModelProjection>)
    ensures
        projections_view(r@) == projections_view(v@),
{
    let mut r: Vec<ModelProjection> = Vec::new();
    let mut i: usize = 0;
    while i < v.len()
        invariant
            i <= v.len(),
            projections_view(r@) =~= projections_view(v@.take(i as int)),
        decreases v.len() - i,
    {
        let p = v[i].copy();
        let ghost before = r@;
        r.push(p);
        assert(v@.take(i + 1) =~= v@.take(i as int).push(v@[i as int]));
        assert(projections_view(r@) =~= projections_view(before).push(p@));
        i = i + 1;
    }
    assert(v@.take(i as int) =~= v@);
    r
}

} // verus!
