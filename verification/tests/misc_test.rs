use instructions::abstractions::{
    accept_foos, create_foos, fruit_from_byte, important_function, managers_only,
    office_workers_only, open_office_workers_only, test_visitor, Base, CalendarDate, DataTrait,
    FooOrBar, Fruit, Greeting, InMemStorage, InMemStorageError, ManagerImpl, Sealed,
    StringVisitor, TableCell, TraitA, UsaLocale, UserFriendlyDataStructure, Visitor,
};
use instructions::dictionary::Dictionary;
use instructions::gate::{flatten, translate_gate, Gate};
use instructions::graph::{generate_nodes, search, Edge, Graph};
use instructions::hrtb_generic::{setup, DataSource, OddOrEven};
use instructions::lifetime_stuff::Getter;
use instructions::stream::LineWriter;
use instructions::syracuse::{fizzy, syracuse, Big, Shared, A, E};
use std::marker::PhantomData;
use std::sync::Arc;

pub struct Container<'slice> {
    pub data: &'slice [u8],
}

impl<'slice> Container<'slice> {
    pub fn new(data: &[u8]) -> Container {
        Container { data }
    }
}

struct Adder<T>(PhantomData<T>);

impl<T> Adder<T> {
    fn add<X, Y>(a: X, b: Y) -> T
    where
        T: std::ops::Add<Output = T>,
        X: Into<T>,
        Y: Into<T>,
    {
        a.into() + b.into()
    }
}

#[test]
fn test_container_new() {
    Container::new("".as_bytes());
}

#[test]
fn async_hrtb_test_test_container_new() {
    Container::new("".as_bytes());
}

#[test]
fn test_adder() {
    println!("add int int:   {}", Adder::<i32>::add(1, 2));
    println!("add int float: {}", Adder::<f64>::add(1, 2.3));
    println!("add float int: {}", Adder::<f64>::add(2.3, 1));
}

#[test]
fn async_hrtb_test_test_adder() {
    println!("add int int:   {}", Adder::<i32>::add(1, 2));
    println!("add int float: {}", Adder::<f64>::add(1, 2.3));
    println!("add float int: {}", Adder::<f64>::add(2.3, 1));
}

#[test]
fn test_dictionary() {
    let mut map = Dictionary::<String, i64>::new();
    let s = "hello world".to_string();
    map.put(&s, 42);
    println!("{:?}", map.get(&s).unwrap());
    println!("{:?}", map.get(&s).unwrap());
}

#[test]
fn the_dictionary_keeps_the_oldest_value_and_can_shed_it() {
    let mut map = Dictionary::<String, i64>::new();
    let k = "key".to_string();
    assert_eq!(map.get(&k), None);
    map.put(&k, 1);
    map.put(&k, 2);
    assert_eq!(map.get(&k), Some(1));
    map.delete(&k);
    assert_eq!(map.get(&k), Some(2));
    map.delete(&k);
    assert_eq!(map.get(&k), None);
}

#[test]
fn fizzy_test() {
    for x in 1..=100u64 {
        println!("{}", fizzy(x))
    }
    assert_eq!(fizzy(15), "FizzBuzz");
    assert_eq!(fizzy(9), "Fizz");
    assert_eq!(fizzy(10), "Buzz");
    assert_eq!(fizzy(7), "7");
}

#[test]
fn test_trait_enum() {
    let val = E::VarA(A);
    println!("{}", val.f());
    assert_eq!(val.f(), 1);
}

#[test]
fn test_add_thing() {
    let a = Big { things: vec![1; 100] };
    let b = Big { things: vec![2; 100] };
    let c = a.add_big(&b);
    println!("{} + {} = {}", a.things[0], b.things[0], c.things[0]);
    assert_eq!(c.things[0], 3);
}

#[test]
fn syracuse_test() {
    let input: Vec<(u128, u128)> = vec![(4, 2), (71, 214)];
    input
        .into_iter()
        .for_each(|(input, output)| assert_eq!(syracuse(input), output));
}

#[test]
fn test_lifetimes() {
}

#[test]
fn test_lifetime_trait_fun() {
    let x = 10u8;
    let x_ref = &x;
    {
        let r = x_ref.get();
        println!("{:?}", r);
    }
    {
        let r = x_ref.get();
        println!("{:?}", r);
    }
}

#[test]
fn lifetime_stuff_test_lifetime_trait_fun() {
    let x = 10u8;
    let x_ref = &x;
    {
        let r = x_ref.get();
        println!("{:?}", r);
    }
    {
        let r = x_ref.get();
        println!("{:?}", r);
    }
}

#[test]
fn test_odd_or_even() {
    let oe = OddOrEven {
        odd: "a".into(),
        even: "b".into(),
    };
    println!("{}", oe.get_value(0));
    println!("{}", oe.get_value(1));
    assert_eq!(oe.get_value(0), "b");
    assert_eq!(oe.get_value(1), "a");
}

#[test]
fn setup_borrows_every_string() {
    let v = vec!["gus".to_string(), "gus2".to_string()];
    assert_eq!(setup(&v), vec!["gus", "gus2"]);
}

pub struct TestData(pub u32);

impl Sealed for TestData {}

impl DataTrait for TestData {}

pub struct TestProvider;

impl Sealed for TestProvider {}

impl TraitA for TestProvider {
    type Data = TestData;
}

#[test]
fn basic_test() {
    let ufds: UserFriendlyDataStructure<TestProvider> = UserFriendlyDataStructure {
        internal_data: TestData(100),
        _a: PhantomData,
    };
    important_function::<TestProvider>(&ufds);
    assert_eq!(important_function::<TestProvider>(&ufds).0, 100);
}

#[test]
fn test_new_type_try_from() {
    let bytes = b"\x01";
    let fruit = fruit_from_byte(bytes[0]).unwrap();
    println!("The fruit is: {:?}", fruit);
    assert_eq!(fruit, Fruit::Apple);
    assert_eq!(fruit_from_byte(2).unwrap(), Fruit::Orange);
    assert!(fruit_from_byte(0).is_err());
}

#[test]
fn test_new_type_try_from_table_cell() {
    let tc = TableCell::new("some_test".to_string());
    println!("{}", tc.data);
    assert_eq!(tc.col_span, 1);
    assert!(tc.pad_content);
}

#[test]
fn the_locale_writes_the_date_american_style() {
    let date = CalendarDate { year: 2024, month: 7, day: 4 };
    let greeting = Greeting::<CalendarDate, UsaLocale>::new("world".to_string(), date);
    assert_eq!(greeting.greet(), "Hello world\nToday is 7/4/2024");
}

#[test]
fn the_office_hierarchy_reports_itself() {
    let manager = ManagerImpl::new(7);
    assert_eq!(office_workers_only(&manager), 7);
    assert_eq!(
        open_office_workers_only(&manager),
        "I work hard, but no one cares. I'm unreplaceable. Sorta. "
    );
    assert_eq!(
        managers_only(&manager),
        "U know, I'm a Bad Luck. Number 7, all that, u know..."
    );
}

#[test]
fn the_visitor_renders_both_values() {
    let storage: InMemStorage<String> = InMemStorage::new();
    let visitor = StringVisitor { data: String::new(), storage: Arc::new(storage) };
    match test_visitor(true) {
        FooOrBar::F(foo) => assert_eq!(visitor.visit_foo(&foo), "it was Foo: 5!"),
        FooOrBar::B(_) => panic!("expected the first value"),
    }
    let either = test_visitor(false);
    assert_eq!(either.accept(&visitor), "it was Bar: 10!");
    accept_foos(vec![create_foos()]);
}

#[test]
fn storage_finds_only_what_it_recorded() {
    let mut storage: InMemStorage<String> = InMemStorage::new();
    assert!(storage.fetch_update(1).unwrap().is_none());
    assert!(storage.record_data(1, "hello".to_string()).is_ok());
    assert_eq!(storage.fetch_update(1).unwrap().unwrap(), "hello");
    assert_eq!(InMemStorageError::DialogueNotFound.text(), "row not found");
}

#[test]
fn line_writer_rewinds_its_state() {
    let mut lw = LineWriter { state: "begin".to_string() };
    let out = lw.write_newline();
    assert_eq!(out, "foo bar");
    assert_eq!(lw.state, "start");
}

#[test]
fn edges_store_their_smaller_endpoint_first() {
    let e = Edge::new(9, 2);
    assert_eq!(e.node_1, 2);
    assert_eq!(e.node_2, 9);
    let mut g = Graph::new();
    assert_eq!(g.len(), 0);
    g.insert(e);
    g.insert(Edge::new(2, 9));
    assert_eq!(g.len(), 1);
    g.insert(Edge::new(1, 2));
    assert_eq!(g.len(), 2);
}

#[test]
fn generated_rings_have_three_exits_after_pairing() {
    let nodes = generate_nodes(20).unwrap();
    assert_eq!(nodes.len(), 20);
    for (i, node) in nodes.iter().enumerate() {
        assert_eq!(node.id, i);
        assert!(node.exits.len() >= 2);
    }
    let depth = search(&nodes, 0, 0, Vec::new(), 0);
    assert!(depth <= 30);
}

#[test]
fn test_factory() {
    let calls = instructions::factory::call_phone(instructions::factory::IPhoneFactory);
    assert_eq!(calls.len(), 10);
    assert_eq!(calls[0], "IPhone id: 0");
    assert_eq!(calls[9], "IPhone id: 9");
}

#[test]
fn my_cool_type() {
    let tuples = vec![
        ("one".to_string(), 1),
        ("two".to_string(), 2),
        ("one".to_string(), 3),
    ];
    let instructions::dictionary::MyCoolType(m) = instructions::dictionary::MyCoolType::from_pairs(tuples);
    println!("{:?}", m);
    assert_eq!(m.len(), 2);
    assert_eq!(m[0].0, "one");
    assert_eq!(m[0].1, vec![1, 3]);
    assert_eq!(m[1].0, "two");
    assert_eq!(m[1].1, vec![2]);
}

#[test]
fn complex_key_type() {
    let mut m = std::collections::HashMap::<instructions::dictionary::Complex, i32>::new();
    m.insert(instructions::dictionary::Complex::new(42, "foo"), 123);
    assert_eq!(123, *m.get(&instructions::dictionary::Complex::new(42, "foo")).unwrap());
}

#[test]
fn test_factory_gat_pattern() {
    #[derive(Debug)]
    struct MyConfig;

    impl instructions::gats::Config for MyConfig {}

    let my_config = MyConfig;
    instructions::gats::run_analysis(b"\0wasm", &my_config);
}

#[derive(Debug, PartialEq, Eq, Hash)]
pub enum ConfigKey {
    Text(String),
    Binary(Vec<u8>),
}

impl ConfigKey {
    fn as_ref(&self) -> ConfigKeyRef {
        match self {
            ConfigKey::Text(t) => ConfigKeyRef::Text(t),
            ConfigKey::Binary(b) => ConfigKeyRef::Binary(b),
        }
    }
}

#[derive(Hash, PartialEq, Eq)]
pub enum ConfigKeyRef<'a> {
    Text(&'a str),
    Binary(&'a [u8]),
}

pub trait Key {
    fn to_key(&self) -> ConfigKeyRef;
}

impl std::hash::Hash for dyn Key + '_ {
    fn hash<H: std::hash::Hasher>(&self, state: &mut H) {
        self.to_key().hash(state);
    }
}

impl PartialEq for dyn Key + '_ {
    fn eq(&self, other: &Self) -> bool {
        self.to_key() == other.to_key()
    }
}

impl Eq for dyn Key + '_ {}

impl Key for ConfigKey {
    fn to_key(&self) -> ConfigKeyRef {
        self.as_ref()
    }
}

impl<'a> Key for &'a str {
    fn to_key(&self) -> ConfigKeyRef {
        ConfigKeyRef::Text(self)
    }
}

impl<'a> std::borrow::Borrow<dyn Key + 'a> for ConfigKey {
    fn borrow(&self) -> &(dyn Key + 'a) {
        self
    }
}

impl<'a> std::borrow::Borrow<dyn Key + 'a> for &'a str {
    fn borrow(&self) -> &(dyn Key + 'a) {
        self
    }
}

#[test]
fn config_key() {
    let mut m = std::collections::HashMap::new();
    m.insert(ConfigKey::Text("foo".into()), 123);
    m.insert(ConfigKey::Binary(vec![]), 456);

    assert_eq!(m.get(&ConfigKey::Text("foo".into())), Some(&123));
    assert_eq!(m.get(&"foo" as &dyn Key), Some(&123));
    assert_eq!(m.get(&"bar" as &dyn Key), None);
}

#[test]
fn gates_translate_and_flatten_to_simple_gates() {
    let mut counter: usize = 0;
    let table = vec![10u64, 11, 12, 13];
    let simple = translate_gate(Gate::Simple(0, 1, 2), &table, &mut counter);
    assert_eq!(simple, Gate::Simple(10, 11, 12));
    assert_eq!(counter, 1);

    let nested = Gate::Function(
        vec![0, 1],
        vec![2, 3],
        vec![Gate::Simple(0, 1, 2), Gate::Simple(3, 3, 0)],
    );
    let mut counter: usize = 0;
    let flat = flatten(nested, &mut counter);
    assert_eq!(counter, 2);
    assert_eq!(flat, vec![Gate::Simple(0, 1, 2), Gate::Simple(3, 3, 0)]);
}
