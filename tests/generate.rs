use loupe_derive::derive::{
    derive_memory_usage, derive_memory_usage_for_enum, derive_memory_usage_for_struct,
    join_fold, DeriveError, FieldList, GenericsText, NamedField, TypeData, TypeDescriptor,
    Variant,
};

fn no_generics() -> GenericsText {
    GenericsText { params: String::new(), where_clause: String::new() }
}

fn named(names: &[&str]) -> FieldList {
    FieldList::Named(
        names.iter().map(|n| NamedField { name: n.to_string(), excluded: false }).collect(),
    )
}

const HEAD: &str = "#[allow(dead_code)] impl <  > MemoryUsage for ";
const SIG: &str = " { fn size_of_val(&self, visited: &mut MemoryUsageTracker) -> usize { std::mem::size_of_val(self) + ";

#[test]
fn join_fold_joins_or_gives_empty() {
    let items = vec!["a".to_string(), "b".to_string(), "c".to_string()];
    assert_eq!("a + b + c", join_fold(&items, " + ", "0"));
    assert_eq!("0", join_fold(&Vec::new(), " + ", "0"));
    assert_eq!("x", join_fold(&vec!["x".to_string()], " , ", ""));
}

#[test]
fn struct_with_named_fields() {
    let text = derive_memory_usage_for_struct("Point", &named(&["x", "y"]), &no_generics());
    let expected = format!(
        "{HEAD}Point <  > {SIG}MemoryUsage::size_of_val(&self.x, visited) - std::mem::size_of_val(&self.x) + MemoryUsage::size_of_val(&self.y, visited) - std::mem::size_of_val(&self.y) }} }}"
    );
    assert_eq!(expected, text);
}

#[test]
fn unit_struct_adds_zero() {
    let text = derive_memory_usage_for_struct("Empty", &FieldList::Unit, &no_generics());
    assert_eq!(format!("{HEAD}Empty <  > {SIG}0 }} }}"), text);
}

#[test]
fn tuple_struct_reads_positions() {
    let flags = vec![false; 12];
    let text = derive_memory_usage_for_struct("Wide", &FieldList::Unnamed(flags), &no_generics());
    assert!(text.contains("size_of_val(&self.0, visited)"));
    assert!(text.contains("size_of_val(&self.11, visited)"));
    assert_eq!(12, text.matches("MemoryUsage::size_of_val(").count());
}

#[test]
fn excluded_fields_are_left_out() {
    let fields = FieldList::Named(vec![
        NamedField { name: "kept".to_string(), excluded: false },
        NamedField { name: "skipped".to_string(), excluded: true },
    ]);
    let text = derive_memory_usage_for_struct("S", &fields, &no_generics());
    assert!(text.contains("&self.kept"));
    assert!(!text.contains("skipped"));
    let text = derive_memory_usage_for_struct(
        "T",
        &FieldList::Unnamed(vec![true, false]),
        &no_generics(),
    );
    assert!(!text.contains("&self.0"));
    assert!(text.contains("&self.1"));
}

#[test]
fn generics_are_carried() {
    let generics = GenericsText {
        params: "T".to_string(),
        where_clause: "where T: MemoryUsage".to_string(),
    };
    let text = derive_memory_usage_for_struct("Generic", &named(&["x"]), &generics);
    assert!(text.starts_with(
        "#[allow(dead_code)] impl < T > MemoryUsage for Generic < T > where T: MemoryUsage { fn size_of_val"
    ));
}

#[test]
fn enum_arms_bind_every_field() {
    let variants = vec![
        Variant { name: "A".to_string(), fields: FieldList::Unit },
        Variant { name: "B".to_string(), fields: FieldList::Unnamed(vec![]) },
        Variant { name: "E".to_string(), fields: FieldList::Unnamed(vec![false, true]) },
        Variant { name: "F".to_string(), fields: named(&["x"]) },
    ];
    let text = derive_memory_usage_for_enum("Things", &variants, &no_generics());
    let expected = format!(
        "{HEAD}Things <  > {SIG}match self {{ Self::A => 0 , Self::B(  ) => 0 , Self::E( x0 , x1 ) => MemoryUsage::size_of_val(x0, visited) - std::mem::size_of_val(x0) , Self::F{{ x }} => MemoryUsage::size_of_val(x, visited) - std::mem::size_of_val(x) }} }} }}"
    );
    assert_eq!(expected, text);
}

#[test]
fn dispatch_by_kind_and_refuse_unions() {
    let s = TypeDescriptor {
        name: "Point".to_string(),
        generics: no_generics(),
        data: TypeData::Struct(named(&["x", "y"])),
    };
    assert_eq!(
        Ok(derive_memory_usage_for_struct("Point", &named(&["x", "y"]), &no_generics())),
        derive_memory_usage(&s)
    );
    let u = TypeDescriptor {
        name: "U".to_string(),
        generics: no_generics(),
        data: TypeData::Union,
    };
    assert_eq!(Err(DeriveError::UnsupportedUnion), derive_memory_usage(&u));
}
