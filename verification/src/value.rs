use vstd::prelude::*;

verus! {

/// The store's native identifier form: a table name plus a local
/// record identifier, printed as `table:id`.
pub struct Thing {
    pub tb: String,
    pub id: String,
}

/// A raw document: an ordered list of field-name/value pairs as the
/// store hands them out. Field lookup takes the first binding of a
/// name, so duplicate names are tolerated rather than assumed away.
pub struct Document {
    pub fields: Vec<(String, Value)>,
}

/// The store's dynamically typed value union. Every field read from a
/// document carries one of these tags; conversion to a typed domain
/// value inspects the tag and fails on a mismatch.
pub enum Value {
    Null,
    Bool(bool),
    Number(i64),
    Strand(String),
    Array(Vec<Value>),
    Object(Document),
    Thing(Thing),
}

/// Mathematical image of a `Thing`.
pub struct ThingV {
    pub tb: Seq<char>,
    pub id: Seq<char>,
}

/// Mathematical image of a `Value`: the same tree over `Seq` and `int`.
#[verifier::ext_equal]
pub enum ValueV {
    Null,
    Bool(bool),
    Number(int),
    Strand(Seq<char>),
    Array(Seq<ValueV>),
    Object(Seq<(Seq<char>, ValueV)>),
    Thing(ThingV),
}

/// Mathematical image of a `Document`.
pub type DocumentV = Seq<(Seq<char>, ValueV)>;

impl View for Thing {
    type V = ThingV;

    open spec fn view(&self) -> ThingV {
        ThingV { tb: self.tb@, id: self.id@ }
    }
}

/// The image of a `Value` as a mathematical tree.
pub open spec fn value_view(v: Value) -> ValueV
    decreases v,
{
    match v {
        Value::Null => ValueV::Null,
        Value::Bool(b) => ValueV::Bool(b),
        Value::Number(n) => ValueV::Number(n as int),
        Value::Strand(s) => ValueV::Strand(s@),
        Value::Array(vs) => ValueV::Array(values_view(vs@)),
        Value::Object(d) => ValueV::Object(fields_view(d.fields@)),
        Value::Thing(t) => ValueV::Thing(t@),
    }
}

/// The images of a sequence of values, elementwise.
pub open spec fn values_view(s: Seq<Value>) -> Seq<ValueV>
    decreases s,
{
    if s.len() == 0 {
        Seq::empty()
    } else {
        values_view(s.subrange(0, s.len() - 1)).push(value_view(s[s.len() - 1]))
    }
}

/// The images of a sequence of named fields, elementwise.
pub open spec fn fields_view(s: Seq<(String, Value)>) -> DocumentV
    decreases s,
{
    if s.len() == 0 {
        Seq::empty()
    } else {
        fields_view(s.subrange(0, s.len() - 1)).push(
            (s[s.len() - 1].0@, value_view(s[s.len() - 1].1)),
        )
    }
}

impl View for Value {
    type V = ValueV;

    open spec fn view(&self) -> ValueV {
        value_view(*self)
    }
}

impl View for Document {
    type V = DocumentV;

    open spec fn view(&self) -> DocumentV {
        fields_view(self.fields@)
    }
}

/// `values_view` maps elementwise and keeps the length.
pub broadcast proof fn lemma_values_view(s: Seq<Value>)
    ensures
        (#[trigger] values_view(s)).len() == s.len(),
        forall|i: int| 0 <= i < s.len() ==> values_view(s)[i] == value_view(s[i]),
    decreases s.len(),
{
    if s.len() > 0 {
        lemma_values_view(s.subrange(0, s.len() - 1));
    }
}

/// `fields_view` maps elementwise and keeps the length.
pub broadcast proof fn lemma_fields_view(s: Seq<(String, Value)>)
    ensures
        (#[trigger] fields_view(s)).len() == s.len(),
        forall|i: int|
            0 <= i < s.len() ==> fields_view(s)[i] == (s[i].0@, value_view(s[i].1)),
    decreases s.len(),
{
    if s.len() > 0 {
        lemma_fields_view(s.subrange(0, s.len() - 1));
    }
}

impl Thing {
    /// A copy whose parts are equal to the original's.
    pub fn duplicate(&self) -> (r: Thing)
        ensures
            r@ == self@,
    {
        Thing { tb: self.tb.clone(), id: self.id.clone() }
    }
}

impl Value {
    /// A copy whose image is equal to the original's.
    pub fn duplicate(&self) -> (r: Value)
        ensures
            value_view(r) == value_view(*self),
        decreases self,
    {
        match self {
            Value::Null => Value::Null,
            Value::Bool(b) => Value::Bool(*b),
            Value::Number(n) => Value::Number(*n),
            Value::Strand(s) => Value::Strand(s.clone()),
            Value::Array(vs) => {
                let mut out: Vec<Value> = Vec::new();
                let mut i: usize = 0;
                while i < vs.len()
                    invariant
                        *self == Value::Array(*vs),
                        out@.len() == i,
                        i <= vs@.len(),
                        forall|j: int|
                            0 <= j < i ==> value_view(out@[j]) == value_view(vs@[j]),
                    decreases vs@.len() - i,
                {
                    proof {
                        assert(decreases_to!(*self => self->Array_0));
                        assert(decreases_to!(*vs => vs[i as int]));
                        assert(self->Array_0 == *vs);
                    }
                    let e = vs[i].duplicate();
                    out.push(e);
                    i = i + 1;
                }
                proof {
                    lemma_values_view(out@);
                    lemma_values_view(vs@);
                    assert(values_view(out@) =~= values_view(vs@));
                }
                Value::Array(out)
            },
            Value::Object(d) => Value::Object(d.duplicate()),
            Value::Thing(t) => Value::Thing(t.duplicate()),
        }
    }
}

impl Document {
    /// A copy whose image is equal to the original's.
    pub fn duplicate(&self) -> (r: Document)
        ensures
            r@ == self@,
        decreases self,
    {
        let mut out: Vec<(String, Value)> = Vec::new();
        let mut i: usize = 0;
        while i < self.fields.len()
            invariant
                out@.len() == i,
                i <= self.fields@.len(),
                forall|j: int|
                    0 <= j < i ==> out@[j].0@ == self.fields@[j].0@ && value_view(out@[j].1)
                        == value_view(self.fields@[j].1),
            decreases self.fields@.len() - i,
        {
            let name = self.fields[i].0.clone();
            let v = self.fields[i].1.duplicate();
            out.push((name, v));
            i = i + 1;
        }
        proof {
            lemma_fields_view(out@);
            lemma_fields_view(self.fields@);
            assert(fields_view(out@) =~= fields_view(self.fields@));
        }
        Document { fields: out }
    }
}

/// The value bound to `name` in a raw document: the first binding of
/// that field name, if any.
pub open spec fn lookup_field(d: DocumentV, name: Seq<char>) -> Option<ValueV>
    decreases d.len(),
{
    if d.len() == 0 {
        Option::None
    } else if d[0].0 == name {
        Option::Some(d[0].1)
    } else {
        lookup_field(d.drop_first(), name)
    }
}

impl Document {
    /// The first field bound to `name`, if any.
    pub fn get_field<'a>(&'a self, name: &str) -> (r: Option<&'a Value>)
        ensures
            match r {
                Option::Some(v) => lookup_field(self@, name@) == Option::Some(value_view(*v)),
                Option::None => lookup_field(self@, name@) is None,
            },
    {
        proof {
            lemma_fields_view(self.fields@);
            assert(self@.skip(0) =~= self@);
        }
        let goal: String = String::from_str(name);
        let mut i: usize = 0;
        while i < self.fields.len()
            invariant
                i <= self.fields@.len(),
                goal@ == name@,
                lookup_field(self@, name@) == lookup_field(self@.skip(i as int), name@),
            decreases self.fields@.len() - i,
        {
            proof {
                lemma_fields_view(self.fields@);
                assert(self@.skip(i as int)[0] == self@[i as int]);
                assert(self@.skip(i as int).drop_first() =~= self@.skip(i as int + 1));
            }
            if self.fields[i].0 == goal {
                return Option::Some(&self.fields[i].1);
            }
            i = i + 1;
        }
        proof {
            assert(self@.skip(i as int).len() == 0);
        }
        Option::None
    }
}

} // verus!
