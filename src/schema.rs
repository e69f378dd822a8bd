use vstd::prelude::*;
use vstd::string::*;

use crate::error::{err_kind, EngineError, ErrorKind};

verus! {

/// The primitive type tag of every value in the engine.
#[derive(Clone, Copy, Debug, PartialEq, Eq, Structural, Hash, PartialOrd, Ord)]
pub enum DataType {
    Boolean,
    Int32,
    Int64,
    Float32,
    Float64,
    Utf8,
}

impl DataType {
    pub open spec fn spec_name(self) -> Seq<char> {
        match self {
            DataType::Boolean => "Boolean"@,
            DataType::Int32 => "Int32"@,
            DataType::Int64 => "Int64"@,
            DataType::Float32 => "Float32"@,
            DataType::Float64 => "Float64"@,
            DataType::Utf8 => "Utf8"@,
        }
    }

    /// The textual form of the type tag.
    pub fn name(&self) -> (r: String)
        ensures
            r@ == self.spec_name(),
    {
        match self {
            DataType::Boolean => String::from_str("Boolean"),
            DataType::Int32 => String::from_str("Int32"),
            DataType::Int64 => String::from_str("Int64"),
            DataType::Float32 => String::from_str("Float32"),
            DataType::Float64 => String::from_str("Float64"),
            DataType::Utf8 => String::from_str("Utf8"),
        }
    }

    pub open spec fn is_numeric(self) -> bool {
        match self {
            DataType::Int32 | DataType::Int64 | DataType::Float32 | DataType::Float64 => true,
            _ => false,
        }
    }
}

/// A field as seen by contracts: its name and its type.
pub type FieldView = (Seq<char>, DataType);

/// A named, typed column descriptor.
#[derive(Debug, PartialEq, Eq)]
pub struct Field {
    pub name: String,
    pub data_type: DataType,
}

impl View for Field {
    type V = FieldView;

    open spec fn view(&self) -> FieldView {
        (self.name@, self.data_type)
    }
}

impl Clone for Field {
    fn clone(&self) -> (r: Self)
        ensures
            r == *self,
    {
        Field { name: self.name.clone(), data_type: self.data_type }
    }
}

impl Field {
    pub fn new(name: String, data_type: DataType) -> (r: Field)
        ensures
            r.name == name,
            r.data_type == data_type,
    {
        Field { name, data_type }
    }
}

/// The views of a sequence of fields.
pub open spec fn fields_view(fields: Seq<Field>) -> Seq<FieldView> {
    fields.map_values(|f: Field| f@)
}

/// `i` is the one position of `fields` whose name is `name`.
pub open spec fn named_at(fields: Seq<FieldView>, name: Seq<char>, i: int) -> bool {
    &&& 0 <= i < fields.len()
    &&& fields[i].0 == name
    &&& forall|j: int| 0 <= j < fields.len() && j != i ==> fields[j].0 != name
}

/// Exactly one field of `fields` is named `name`.
pub open spec fn has_unique(fields: Seq<FieldView>, name: Seq<char>) -> bool {
    exists|i: int| named_at(fields, name, i)
}

/// The position of the one field named `name` (meaningful under `has_unique`).
pub open spec fn unique_pos(fields: Seq<FieldView>, name: Seq<char>) -> int {
    choose|i: int| named_at(fields, name, i)
}

/// What selecting `names` out of `fields` gives: each name must match exactly
/// one field, and the fields come out in the order of `names`.
pub open spec fn select_spec(fields: Seq<FieldView>, names: Seq<Seq<char>>) -> Option<Seq<FieldView>> {
    if forall|k: int| 0 <= k < names.len() ==> has_unique(fields, #[trigger] names[k]) {
        Some(names.map_values(|n: Seq<char>| fields[unique_pos(fields, n)]))
    } else {
        None
    }
}

/// No two fields share a name.
pub open spec fn distinct_names(fields: Seq<FieldView>) -> bool {
    forall|i: int, j: int| 0 <= i < fields.len() && 0 <= j < fields.len() && i != j
        ==> fields[i].0 != fields[j].0
}

/// Finds the one field named `name`; `None` when there is none or more than one.
pub fn find_unique(fields: &Vec<Field>, name: &String) -> (r: Option<usize>)
    ensures
        r matches Some(i) ==> named_at(fields_view(fields@), name@, i as int),
        r is None ==> !has_unique(fields_view(fields@), name@),
{
    let ghost v = fields_view(fields@);
    let mut found: Option<usize> = None;
    let mut ambiguous = false;
    let mut i: usize = 0;
    while i < fields.len()
        invariant
            i <= fields.len(),
            v == fields_view(fields@),
            !ambiguous ==> (found matches Some(k) ==> (k < i && v[k as int].0 == name@
                && forall|j: int| 0 <= j < i && j != k ==> v[j].0 != name@)),
            !ambiguous && found is None ==> forall|j: int| 0 <= j < i ==> v[j].0 != name@,
            ambiguous ==> exists|a: int, b: int| 0 <= a < b < i && v[a].0 == name@ && v[b].0 == name@,
        decreases fields.len() - i,
    {
        if fields[i].name == *name {
            if ambiguous {
            } else if let Some(k) = found {
                assert(v[k as int].0 == name@ && v[i as int].0 == name@);
                ambiguous = true;
            } else {
                found = Some(i);
            }
        }
        i = i + 1;
    }
    if ambiguous {
        proof {
            let (a, b) = choose|a: int, b: int| 0 <= a < b < i && v[a].0 == name@ && v[b].0 == name@;
            assert forall|p: int| !named_at(v, name@, p) by {
                if named_at(v, name@, p) {
                    assert(a == p && b == p);
                }
            }
        }
        None
    } else {
        found
    }
}

/// The first position of `fields` whose name is `name`, if any.
pub open spec fn first_pos(fields: Seq<FieldView>, name: Seq<char>) -> Option<int>
    decreases fields.len(),
{
    if fields.len() == 0 {
        None
    } else {
        match first_pos(fields.drop_last(), name) {
            Some(i) => Some(i),
            None => if fields.last().0 == name { Some(fields.len() - 1) } else { None },
        }
    }
}

pub proof fn lemma_first_pos_valid(fields: Seq<FieldView>, name: Seq<char>)
    ensures
        first_pos(fields, name) matches Some(i) ==> 0 <= i < fields.len() && fields[i].0 == name,
        first_pos(fields, name) is None ==> forall|j: int| 0 <= j < fields.len() ==> (#[trigger] fields[j]).0 != name,
    decreases fields.len(),
{
    if fields.len() > 0 {
        lemma_first_pos_valid(fields.drop_last(), name);
        if first_pos(fields, name) is None {
            assert forall|j: int| 0 <= j < fields.len() implies (#[trigger] fields[j]).0 != name by {
                if j < fields.len() - 1 {
                    assert(fields.drop_last()[j] == fields[j]);
                }
            }
        }
    }
}

/// When exactly one field has the name, the first match is that field.
pub proof fn lemma_first_pos_unique(fields: Seq<FieldView>, name: Seq<char>, i: int)
    requires
        named_at(fields, name, i),
    ensures
        first_pos(fields, name) == Some(i),
    decreases fields.len(),
{
    let init = fields.drop_last();
    if i < fields.len() - 1 {
        assert(named_at(init, name, i)) by {
            assert forall|j: int| 0 <= j < init.len() && j != i implies init[j].0 != name by {
                assert(init[j] == fields[j]);
            }
        }
        lemma_first_pos_unique(init, name, i);
    } else {
        lemma_first_pos_valid(init, name);
        if first_pos(init, name) is Some {
            let j = first_pos(init, name)->Some_0;
            assert(init[j] == fields[j]);
        }
    }
}

proof fn lemma_first_pos_prefix(fields: Seq<FieldView>, name: Seq<char>, n: int)
    requires
        0 <= n <= fields.len(),
    ensures
        first_pos(fields.take(n), name) is Some ==> first_pos(fields, name) == first_pos(fields.take(n), name),
        first_pos(fields.take(n), name) is None && n < fields.len() && fields[n].0 == name ==> first_pos(fields, name) == Some(n),
    decreases fields.len() - n,
{
    if n < fields.len() {
        assert(fields.take(n + 1).drop_last() =~= fields.take(n));
        lemma_first_pos_prefix(fields, name, n + 1);
    } else {
        assert(fields.take(n) =~= fields);
    }
}

/// The first field named `name`, if any.
pub fn find_first(fields: &Vec<Field>, name: &String) -> (r: Option<usize>)
    ensures
        match first_pos(fields_view(fields@), name@) {
            Some(j) => r matches Some(i) && i as int == j,
            None => r is None,
        },
{
    let ghost v = fields_view(fields@);
    let mut i: usize = 0;
    while i < fields.len()
        invariant
            i <= fields.len(),
            v == fields_view(fields@),
            first_pos(v.take(i as int), name@) is None,
        decreases fields.len() - i,
    {
        proof {
            assert(v.take(i + 1).drop_last() =~= v.take(i as int));
        }
        if fields[i].name == *name {
            proof {
                lemma_first_pos_prefix(v, name@, i as int);
            }
            return Some(i);
        }
        i = i + 1;
    }
    proof {
        assert(v.take(i as int) =~= v);
    }
    None
}

/// An ordered sequence of fields.
#[derive(Debug, PartialEq, Eq)]
pub struct Schema {
    pub fields: Vec<Field>,
}

impl View for Schema {
    type V = Seq<FieldView>;

    open spec fn view(&self) -> Seq<FieldView> {
        fields_view(self.fields@)
    }
}

impl Clone for Schema {
    fn clone(&self) -> (r: Self)
        ensures
            r.fields@ == self.fields@,
            r@ == self@,
    {
        let fields = self.fields.clone();
        proof {
            assert forall|i: int| 0 <= i < fields@.len() implies fields@[i] == self.fields@[i] by {
                assert(cloned::<Field>(self.fields[i], fields[i]));
            }
            assert(fields@ =~= self.fields@);
        }
        Schema { fields }
    }
}

impl Schema {
    pub fn new(fields: Vec<Field>) -> (r: Schema)
        ensures
            r.fields == fields,
    {
        Schema { fields }
    }

    /// The schema of the fields named by `names`, in the order of `names`.
    /// Fails with a resolution error when a name matches no field or several.
    pub fn select(&self, names: Vec<&str>) -> (r: Result<Schema, EngineError>)
        ensures
            select_spec(self@, names@.map_values(|n: &str| n@)) matches Some(s) ==> (r matches Ok(t) && t@ == s),
            select_spec(self@, names@.map_values(|n: &str| n@)) is None ==> err_kind(r) == Some(ErrorKind::Resolution),
    {
        let ghost ns = names@.map_values(|n: &str| n@);
        let mut out: Vec<Field> = Vec::new();
        let mut k: usize = 0;
        while k < names.len()
            invariant
                k <= names.len(),
                ns == names@.map_values(|n: &str| n@),
                out@.len() == k,
                forall|j: int| 0 <= j < k ==> has_unique(self@, #[trigger] ns[j]),
                forall|j: int| 0 <= j < k ==> #[trigger] out@[j]@ == self@[unique_pos(self@, ns[j])],
            decreases names.len() - k,
        {
            let name = String::from_str(names[k]);
            match find_unique(&self.fields, &name) {
                Some(i) => {
                    out.push(self.fields[i].clone());
                },
                None => {
                    proof {
                        assert(!has_unique(self@, ns[k as int]));
                    }
                    return Err(EngineError::new(ErrorKind::Resolution, "no unique field for a selected name"));
                },
            }
            k = k + 1;
        }
        let r = Schema { fields: out };
        proof {
            assert(r@ =~= ns.map_values(|n: Seq<char>| self@[unique_pos(self@, n)]));
        }
        Ok(r)
    }
}

/// Selecting every field of a schema by its own name gives the schema back,
/// provided no two fields share a name.
pub proof fn select_own_names(fields: Seq<FieldView>)
    requires
        distinct_names(fields),
    ensures
        select_spec(fields, fields.map_values(|f: FieldView| f.0)) == Some(fields),
{
    let names = fields.map_values(|f: FieldView| f.0);
    assert forall|k: int| 0 <= k < names.len() implies named_at(fields, #[trigger] names[k], k) by {}
    assert forall|k: int| 0 <= k < names.len() implies has_unique(fields, #[trigger] names[k]) by {
        assert(named_at(fields, names[k], k));
    }
    assert forall|k: int| 0 <= k < names.len() implies unique_pos(fields, #[trigger] names[k]) == k by {
        assert(named_at(fields, names[k], k));
        let p = unique_pos(fields, names[k]);
        assert(named_at(fields, names[k], p));
    }
    assert(names.map_values(|n: Seq<char>| fields[unique_pos(fields, n)]) =~= fields);
}

} // verus!
