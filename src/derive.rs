use vstd::prelude::*;
use vstd::string::StringExecFns;

verus! {

/// The texts of a list of strings.
pub open spec fn texts(items: Seq<String>) -> Seq<Seq<char>> {
    items.map_values(|s: String| s@)
}

/// A non-empty list of texts with `separator` between neighbours.
pub open spec fn joined(items: Seq<Seq<char>>, separator: Seq<char>) -> Seq<char>
    decreases items.len(),
{
    if items.len() <= 1 {
        if items.len() == 0 {
            Seq::empty()
        } else {
            items[0]
        }
    } else {
        joined(items.drop_last(), separator) + separator + items.last()
    }
}

/// `items` joined by `separator`, or `empty` when there are none.
pub open spec fn join(items: Seq<Seq<char>>, separator: Seq<char>, empty: Seq<char>) -> Seq<
    char,
> {
    if items.len() == 0 {
        empty
    } else {
        joined(items, separator)
    }
}

/// Joins `items` with `separator` between neighbours; `empty` stands for a
/// list with no items.
pub fn join_fold(items: &Vec<String>, separator: &str, empty: &str) -> (r: String)
    ensures
        r@ == join(texts(items@), separator@, empty@),
{
    if items.len() == 0 {
        return empty.to_owned();
    }
    let mut r = items[0].clone();
    let mut i: usize = 1;
    proof {
        assert(texts(items@).take(1) =~= seq![items@[0]@]);
    }
    while i < items.len()
        invariant
            1 <= i <= items@.len(),
            r@ == joined(texts(items@).take(i as int), separator@),
        decreases items@.len() - i,
    {
        r.append(separator);
        r.append(items[i].as_str());
        proof {
            let t = texts(items@);
            assert(t.take((i + 1) as int).drop_last() =~= t.take(i as int));
        }
        i = i + 1;
    }
    proof {
        assert(texts(items@).take(items@.len() as int) =~= texts(items@));
    }
    r
}

/// The decimal digits of `n`, most significant first.
pub open spec fn decimal(n: nat) -> Seq<char>
    decreases n,
{
    let digit = seq!['0', '1', '2', '3', '4', '5', '6', '7', '8', '9'][(n % 10) as int];
    if n < 10 {
        seq![digit]
    } else {
        decimal(n / 10).push(digit)
    }
}

/// Relies on `ToString` for `usize`, which writes the number in decimal
/// without sign, padding or separators.
#[verifier::external_body]
pub(crate) fn decimal_text(n: usize) -> (r: String)
    ensures
        r@ == decimal(n as nat),
{
    n.to_string()
}

/// What one embedded part adds: its deep size minus its in-place size.
pub open spec fn measure_term(place: Seq<char>) -> Seq<char> {
    "MemoryUsage::size_of_val("@ + place + ", visited) - std::mem::size_of_val("@ + place + ")"@
}

fn measure_term_text(place: &str) -> (r: String)
    ensures
        r@ == measure_term(place@),
{
    let mut t = "MemoryUsage::size_of_val(".to_owned();
    t.append(place);
    t.append(", visited) - std::mem::size_of_val(");
    t.append(place);
    t.append(")");
    t
}

/// A named field, and whether it is left out of the accounting.
pub struct NamedField {
    pub name: String,
    pub excluded: bool,
}

/// The fields of a struct or of an enum variant.
pub enum FieldList {
    /// `{ x, y }`
    Named(Vec<NamedField>),
    /// `(a, b)`: for each position, whether that field is left out.
    Unnamed(Vec<bool>),
    /// No fields at all.
    Unit,
}

/// The generic parameters and the `where` clause of a type, as written.
pub struct GenericsText {
    pub params: String,
    pub where_clause: String,
}

/// One variant of an enum.
pub struct Variant {
    pub name: String,
    pub fields: FieldList,
}

/// What kind of type the accounting is written for.
pub enum TypeData {
    Struct(FieldList),
    Enum(Vec<Variant>),
    /// An untagged union: no member is known to be active.
    Union,
}

/// The structure of a type: all that the generated accounting needs.
pub struct TypeDescriptor {
    pub name: String,
    pub generics: GenericsText,
    pub data: TypeData,
}

/// Why no accounting can be written for a type.
#[derive(PartialEq, Eq, Structural, Clone, Copy, Debug)]
pub enum DeriveError {
    /// Untagged unions are refused: the active member cannot be known.
    UnsupportedUnion,
}

/// The terms of the counted named fields, each read at `prefix` + name.
pub open spec fn named_terms(fs: Seq<NamedField>, prefix: Seq<char>) -> Seq<Seq<char>>
    decreases fs.len(),
{
    if fs.len() == 0 {
        Seq::empty()
    } else {
        named_terms(fs.drop_last(), prefix) + if fs.last().excluded {
            Seq::empty()
        } else {
            seq![measure_term(prefix + fs.last().name@)]
        }
    }
}

/// The terms of the counted fields among the first `n` positions, each read
/// at `prefix` + position.
pub open spec fn unnamed_terms(flags: Seq<bool>, n: nat, prefix: Seq<char>) -> Seq<Seq<char>>
    decreases n,
{
    if n == 0 || n > flags.len() {
        Seq::empty()
    } else {
        unnamed_terms(flags, (n - 1) as nat, prefix) + if flags[n - 1] {
            Seq::empty()
        } else {
            seq![measure_term(prefix + decimal((n - 1) as nat))]
        }
    }
}

/// The terms of the counted fields of a field list.
pub open spec fn field_terms(
    fields: FieldList,
    named_prefix: Seq<char>,
    unnamed_prefix: Seq<char>,
) -> Seq<Seq<char>> {
    match fields {
        FieldList::Named(fs) => named_terms(fs@, named_prefix),
        FieldList::Unnamed(flags) => unnamed_terms(flags@, flags@.len(), unnamed_prefix),
        FieldList::Unit => Seq::empty(),
    }
}

fn field_terms_text(fields: &FieldList, named_prefix: &str, unnamed_prefix: &str) -> (r: Vec<
    String,
>)
    ensures
        texts(r@) == field_terms(*fields, named_prefix@, unnamed_prefix@),
{
    let mut r: Vec<String> = Vec::new();
    match fields {
        FieldList::Named(fs) => {
            let mut i: usize = 0;
            while i < fs.len()
                invariant
                    i <= fs@.len(),
                    texts(r@) == named_terms(fs@.take(i as int), named_prefix@),
                decreases fs@.len() - i,
            {
                proof {
                    assert(fs@.take((i + 1) as int).drop_last() =~= fs@.take(i as int));
                }
                if !fs[i].excluded {
                    let mut place = named_prefix.to_owned();
                    place.append(fs[i].name.as_str());
                    let t = measure_term_text(place.as_str());
                    let ghost before = r@;
                    r.push(t);
                    proof {
                        assert(texts(r@) =~= texts(before).push(t@));
                    }
                }
                i = i + 1;
            }
            proof {
                assert(fs@.take(fs@.len() as int) =~= fs@);
            }
        },
        FieldList::Unnamed(flags) => {
            let mut i: usize = 0;
            while i < flags.len()
                invariant
                    i <= flags@.len(),
                    texts(r@) == unnamed_terms(flags@, i as nat, unnamed_prefix@),
                decreases flags@.len() - i,
            {
                if !flags[i] {
                    let mut place = unnamed_prefix.to_owned();
                    let digits = decimal_text(i);
                    place.append(digits.as_str());
                    let t = measure_term_text(place.as_str());
                    let ghost before = r@;
                    r.push(t);
                    proof {
                        assert(texts(r@) =~= texts(before).push(t@));
                    }
                }
                i = i + 1;
            }
        },
        FieldList::Unit => {
            proof {
                assert(texts(r@) =~= Seq::<Seq<char>>::empty());
            }
        },
    }
    r
}

/// The names bound for the first `n` unnamed fields: `x0`, `x1`, ...
pub open spec fn unnamed_bindings(n: nat) -> Seq<Seq<char>>
    decreases n,
{
    if n == 0 {
        Seq::empty()
    } else {
        unnamed_bindings((n - 1) as nat).push("x"@ + decimal((n - 1) as nat))
    }
}

/// The pattern that binds every field of a variant.
pub open spec fn pattern(fields: FieldList) -> Seq<char> {
    match fields {
        FieldList::Named(fs) => "{ "@ + join(fs@.map_values(|f: NamedField| f.name@), " , "@, ""@)
            + " }"@,
        FieldList::Unnamed(flags) => "( "@ + join(unnamed_bindings(flags@.len()), " , "@, ""@)
            + " )"@,
        FieldList::Unit => Seq::empty(),
    }
}

/// The match arm of a variant: its pattern and the sum of what its counted
/// fields add.
pub open spec fn arm(v: Variant) -> Seq<char> {
    "Self::"@ + v.name@ + pattern(v.fields) + " => "@ + join(
        field_terms(v.fields, ""@, "x"@),
        " + "@,
        "0"@,
    )
}

/// An accounting impl for the type `name` whose extra bytes are `body`.
pub open spec fn impl_text(name: Seq<char>, generics: GenericsText, body: Seq<char>) -> Seq<
    char,
> {
    "#[allow(dead_code)] impl < "@ + generics.params@ + " > MemoryUsage for "@ + name + " < "@
        + generics.params@ + " > "@ + generics.where_clause@
        + " { fn size_of_val(&self, visited: &mut MemoryUsageTracker) -> usize { std::mem::size_of_val(self) + "@
        + body + " } }"@
}

/// The accounting of a struct: its record plus what each counted field adds.
pub open spec fn struct_impl(name: Seq<char>, fields: FieldList, generics: GenericsText) -> Seq<
    char,
> {
    impl_text(name, generics, join(field_terms(fields, "&self."@, "&self."@), " + "@, "0"@))
}

/// The accounting of an enum: its whole record plus what the counted fields
/// of the active variant add.
pub open spec fn enum_impl(name: Seq<char>, variants: Seq<Variant>, generics: GenericsText) -> Seq<
    char,
> {
    impl_text(
        name,
        generics,
        "match self { "@ + join(variants.map_values(|v: Variant| arm(v)), " , "@, ""@) + " }"@,
    )
}

fn pattern_text(fields: &FieldList) -> (r: String)
    ensures
        r@ == pattern(*fields),
{
    match fields {
        FieldList::Named(fs) => {
            let mut names: Vec<String> = Vec::new();
            let mut i: usize = 0;
            while i < fs.len()
                invariant
                    i <= fs@.len(),
                    texts(names@) =~= fs@.take(i as int).map_values(|f: NamedField| f.name@),
                decreases fs@.len() - i,
            {
                let ghost before = names@;
                names.push(fs[i].name.clone());
                proof {
                    assert(texts(names@) =~= texts(before).push(fs@[i as int].name@));
                    assert(fs@.take((i + 1) as int) =~= fs@.take(i as int).push(fs@[i as int]));
                }
                i = i + 1;
            }
            proof {
                assert(fs@.take(fs@.len() as int) =~= fs@);
            }
            let mut r = "{ ".to_owned();
            let inner = join_fold(&names, " , ", "");
            r.append(inner.as_str());
            r.append(" }");
            r
        },
        FieldList::Unnamed(flags) => {
            let mut names: Vec<String> = Vec::new();
            let mut i: usize = 0;
            while i < flags.len()
                invariant
                    i <= flags@.len(),
                    texts(names@) =~= unnamed_bindings(i as nat),
                decreases flags@.len() - i,
            {
                let mut b = "x".to_owned();
                let digits = decimal_text(i);
                b.append(digits.as_str());
                names.push(b);
                i = i + 1;
            }
            let mut r = "( ".to_owned();
            let inner = join_fold(&names, " , ", "");
            r.append(inner.as_str());
            r.append(" )");
            r
        },
        FieldList::Unit => String::new(),
    }
}

fn arm_text(v: &Variant) -> (r: String)
    ensures
        r@ == arm(*v),
{
    let mut r = "Self::".to_owned();
    r.append(v.name.as_str());
    let p = pattern_text(&v.fields);
    r.append(p.as_str());
    r.append(" => ");
    let terms = field_terms_text(&v.fields, "", "x");
    let sum = join_fold(&terms, " + ", "0");
    r.append(sum.as_str());
    r
}

fn impl_text_of(name: &str, generics: &GenericsText, body: &str) -> (r: String)
    ensures
        r@ == impl_text(name@, *generics, body@),
{
    let mut r = "#[allow(dead_code)] impl < ".to_owned();
    r.append(generics.params.as_str());
    r.append(" > MemoryUsage for ");
    r.append(name);
    r.append(" < ");
    r.append(generics.params.as_str());
    r.append(" > ");
    r.append(generics.where_clause.as_str());
    r.append(
        " { fn size_of_val(&self, visited: &mut MemoryUsageTracker) -> usize { std::mem::size_of_val(self) + ",
    );
    r.append(body);
    r.append(" } }");
    r
}

/// The accounting impl of a struct, as source text.
pub fn derive_memory_usage_for_struct(
    struct_name: &str,
    fields: &FieldList,
    generics: &GenericsText,
) -> (r: String)
    ensures
        r@ == struct_impl(struct_name@, *fields, *generics),
{
    let terms = field_terms_text(fields, "&self.", "&self.");
    let sum = join_fold(&terms, " + ", "0");
    impl_text_of(struct_name, generics, sum.as_str())
}

/// The accounting impl of an enum, as source text.
pub fn derive_memory_usage_for_enum(
    enum_name: &str,
    variants: &Vec<Variant>,
    generics: &GenericsText,
) -> (r: String)
    ensures
        r@ == enum_impl(enum_name@, variants@, *generics),
{
    let mut arms: Vec<String> = Vec::new();
    let mut i: usize = 0;
    while i < variants.len()
        invariant
            i <= variants@.len(),
            texts(arms@) =~= variants@.take(i as int).map_values(|v: Variant| arm(v)),
        decreases variants@.len() - i,
    {
        let a = arm_text(&variants[i]);
        let ghost before = arms@;
        arms.push(a);
        proof {
            assert(texts(arms@) =~= texts(before).push(arm(variants@[i as int])));
            assert(variants@.take((i + 1) as int) =~= variants@.take(i as int).push(
                variants@[i as int],
            ));
        }
        i = i + 1;
    }
    proof {
        assert(variants@.take(variants@.len() as int) =~= variants@);
    }
    let mut body = "match self { ".to_owned();
    let joined_arms = join_fold(&arms, " , ", "");
    body.append(joined_arms.as_str());
    body.append(" }");
    impl_text_of(enum_name, generics, body.as_str())
}

/// The accounting impl of a type, as source text; untagged unions are
/// refused.
pub fn derive_memory_usage(input: &TypeDescriptor) -> (r: Result<String, DeriveError>)
    ensures
        match input.data {
            TypeData::Struct(fields) => r is Ok && r->Ok_0@ == struct_impl(
                input.name@,
                fields,
                input.generics,
            ),
            TypeData::Enum(variants) => r is Ok && r->Ok_0@ == enum_impl(
                input.name@,
                variants@,
                input.generics,
            ),
            TypeData::Union => r == Err::<String, DeriveError>(DeriveError::UnsupportedUnion),
        },
{
    match &input.data {
        TypeData::Struct(fields) => Ok(
            derive_memory_usage_for_struct(input.name.as_str(), fields, &input.generics),
        ),
        TypeData::Enum(variants) => Ok(
            derive_memory_usage_for_enum(input.name.as_str(), variants, &input.generics),
        ),
        TypeData::Union => Err(DeriveError::UnsupportedUnion),
    }
}

} // verus!
