use crate::text::{dec_string, i64_string, int_string, u64_string};
use std::collections::HashMap;
use std::marker::PhantomData;
use std::sync::Arc;
use vstd::prelude::*;
use vstd::slice::slice_subrange;
use vstd::string::StringExecFns;

verus! {

broadcast use vstd::std_specs::hash::group_hash_axioms;

/// Renders locale-specific information for a greeting.
pub trait Locale<T> {
    spec fn greeting_view(info: T) -> Seq<char>;

    fn local_greeting(info: T) -> (r: String)
        ensures
            r@ == Self::greeting_view(info),
    ;
}

/// A greeting for one person, rendered through a chosen locale.
pub struct Greeting<T, LOCALE> where LOCALE: Locale<T> {
    pub name: String,
    pub locale_specific_info: T,
    pub locale: PhantomData<LOCALE>,
}

impl<T, LOCALE> Greeting<T, LOCALE> where LOCALE: Locale<T> {
    pub fn new(name: String, locale_specific_info: T) -> (r: Greeting<T, LOCALE>)
        ensures
            r.name == name,
            r.locale_specific_info == locale_specific_info,
    {
        Greeting { name, locale_specific_info, locale: PhantomData }
    }

    /// The whole greeting: the name, then the locale's rendering of the date.
    pub fn greet(self) -> (r: String)
        ensures
            r@ == "Hello "@ + self.name@ + "\nToday is "@ + LOCALE::greeting_view(
                self.locale_specific_info,
            ),
    {
        let local_greeting = LOCALE::local_greeting(self.locale_specific_info);
        let r = String::from_str("Hello ").concat(self.name.as_str()).concat(
            "\nToday is ",
        ).concat(local_greeting.as_str());
        r
    }
}

/// A calendar date held as plain numbers; what a date library computes is
/// turned into this before the verified code reads it.
#[derive(Clone, Copy, Debug, PartialEq, Eq, Structural)]
pub struct CalendarDate {
    pub year: i64,
    pub month: u32,
    pub day: u32,
}

pub struct UsaLocale {}

impl Locale<CalendarDate> for UsaLocale {
    open spec fn greeting_view(info: CalendarDate) -> Seq<char> {
        dec_string(info.month as nat) + "/"@ + dec_string(info.day as nat) + "/"@ + int_string(
            info.year as int,
        )
    }

    /// The month/day/year form.
    fn local_greeting(info: CalendarDate) -> (r: String) {
        let mut r = u64_string(info.month as u64);
        r = r.concat("/").concat(u64_string(info.day as u64).as_str()).concat("/").concat(
            i64_string(info.year).as_str(),
        );
        r
    }
}

/// The office-worker interface: an id and a line of hard work.
pub trait OfficeWorker {
    spec fn id_view(&self) -> usize;

    spec fn work_message(&self) -> Seq<char>;

    fn id(&self) -> (r: usize)
        ensures
            r == self.id_view(),
    ;

    fn work_hard(&self) -> (r: String)
        ensures
            r@ == self.work_message(),
    ;
}

/// Decorates any office worker with open-office enthusiasm.
pub struct OpenOfficeWorker<T: OfficeWorker> {
    pub inner: T,
}

impl<T: OfficeWorker> OpenOfficeWorker<T> {
    /// The inner worker's line, with the decoration appended.
    pub fn work_even_harder(&self) -> (r: String)
        ensures
            r@ == self.inner.work_message() + "I'm unreplaceable. Sorta. "@,
    {
        let inner_work = self.inner.work_hard();
        inner_work.concat("I'm unreplaceable. Sorta. ")
    }
}

impl<T: OfficeWorker> OfficeWorker for OpenOfficeWorker<T> {
    open spec fn id_view(&self) -> usize {
        self.inner.id_view()
    }

    open spec fn work_message(&self) -> Seq<char> {
        self.inner.work_message() + "I'm unreplaceable. Sorta. "@
    }

    fn id(&self) -> usize {
        self.inner.id()
    }

    fn work_hard(&self) -> String {
        self.work_even_harder()
    }
}

/// The one concrete worker: a manager.
pub struct ManagerImpl {
    pub id_: usize,
}

impl ManagerImpl {
    /// Managers are only handed out decorated.
    pub fn new(id: usize) -> (r: Manager)
        ensures
            r.inner.id_ == id,
    {
        OpenOfficeWorker { inner: ManagerImpl { id_: id } }
    }

    /// The manager's excuse, with its number in the middle.
    pub fn blame(&self) -> (r: String)
        ensures
            r@ == "U know, I'm a Bad Luck. Number "@ + dec_string(self.id_ as nat)
                + ", all that, u know..."@,
    {
        String::from_str("U know, I'm a Bad Luck. Number ").concat(
            u64_string(self.id_ as u64).as_str(),
        ).concat(", all that, u know...")
    }
}

impl OfficeWorker for ManagerImpl {
    open spec fn id_view(&self) -> usize {
        self.id_
    }

    open spec fn work_message(&self) -> Seq<char> {
        "I work hard, but no one cares. "@
    }

    fn id(&self) -> usize {
        self.id_
    }

    fn work_hard(&self) -> String {
        String::from_str("I work hard, but no one cares. ")
    }
}

/// The publicly manageable alias.
pub type Manager = OpenOfficeWorker<ManagerImpl>;

/// Announces any office worker; nobody notices.
pub fn office_workers_only<T: OfficeWorker>(w: &T) -> (r: usize)
    ensures
        r == w.id_view(),
{
    w.id()
}

/// Welcomes an open-office worker and records what it said.
pub fn open_office_workers_only<T: OfficeWorker>(w: &OpenOfficeWorker<T>) -> (r: String)
    ensures
        r@ == w.inner.work_message() + "I'm unreplaceable. Sorta. "@,
{
    w.work_even_harder()
}

/// Greets a manager and records its excuse.
pub fn managers_only(w: &Manager) -> (r: String)
    ensures
        r@ == "U know, I'm a Bad Luck. Number "@ + dec_string(w.inner.id_ as nat)
            + ", all that, u know..."@,
{
    w.inner.blame()
}

/// A type-level number.
pub trait Number {
    spec fn value_spec() -> nat;
}

pub struct One;

pub struct PlusOne<T> {
    pub _marker: PhantomData<T>,
}

impl Number for One {
    open spec fn value_spec() -> nat {
        1
    }
}

impl<T: Number> Number for PlusOne<T> {
    open spec fn value_spec() -> nat {
        T::value_spec() + 1
    }
}

/// Indexing one dimension off a tensor accessor.
pub trait AccessorTrait {
    type Output;

    spec fn can_get(&self, index: usize) -> bool;

    fn get(&self, index: usize) -> Self::Output
        requires
            self.can_get(index),
    ;
}

/// An accessor for a tensor of `N` dimensions, holding one stride per
/// dimension.
pub struct MultiDimensionalTensorAccessor<'a, N: Number, Index> {
    pub _number: PhantomData<N>,
    pub strides: &'a [Index],
}

pub struct SingleDimensional {}

impl<'a, N: Number, Index> MultiDimensionalTensorAccessor<'a, N, Index> {
    pub fn new(strides: &'a [Index]) -> (r: MultiDimensionalTensorAccessor<'a, N, Index>)
        ensures
            r.strides@ == strides@,
    {
        MultiDimensionalTensorAccessor { _number: PhantomData, strides }
    }
}

impl<'a, N: Number, Index> AccessorTrait for MultiDimensionalTensorAccessor<'a, PlusOne<N>, Index> {
    type Output = MultiDimensionalTensorAccessor<'a, N, Index>;

    open spec fn can_get(&self, index: usize) -> bool {
        self.strides@.len() >= 1
    }

    /// Dropping the outermost dimension leaves an accessor one dimension
    /// smaller.
    fn get(&self, index: usize) -> (r: Self::Output) {
        let rest = slice_subrange(self.strides, 1, self.strides.len());
        MultiDimensionalTensorAccessor::new(rest)
    }
}

impl<'a, Index> AccessorTrait for MultiDimensionalTensorAccessor<'a, One, Index> {
    type Output = SingleDimensional;

    open spec fn can_get(&self, index: usize) -> bool {
        true
    }

    fn get(&self, index: usize) -> Self::Output {
        SingleDimensional {  }
    }
}

/// A product with a name.
pub trait ProductTrait {
    spec fn name_view(&self) -> Seq<char>;

    fn name(&self) -> (r: &str)
        ensures
            r@ == self.name_view(),
    ;
}

/// A producer stamps out products with the asked-for name.
pub trait ProducerTrait<'p>: Copy {
    type Product: ProductTrait;

    fn produce(self, name: &str) -> (r: Self::Product)
        ensures
            r.name_view() == name@,
    ;
}

/// A producer whose products are logged as they are made.
pub trait LoggingProducerTrait<'p>: ProducerTrait<'p> {
    fn produce_and_log(self, name: &str) -> (r: Self::Product)
        ensures
            r.name_view() == name@,
    {
        let product = self.produce(name);
        product
    }
}

pub struct CarFactory {}

pub struct Car<'p> {
    pub producer: &'p CarFactory,
    pub name: String,
}

impl<'p> ProductTrait for Car<'p> {
    open spec fn name_view(&self) -> Seq<char> {
        self.name@
    }

    fn name(&self) -> &str {
        self.name.as_str()
    }
}

impl<'p> ProducerTrait<'p> for &'p CarFactory {
    type Product = Car<'p>;

    fn produce(self, name: &str) -> Car<'p> {
        Car { producer: self, name: name.to_owned() }
    }
}

impl<'p> LoggingProducerTrait<'p> for &'p CarFactory {

}

/// An error returned from the in-memory storage.
#[derive(Debug)]
pub enum InMemStorageError {
    /// The row asked for is not there.
    DialogueNotFound,
}

impl InMemStorageError {
    /// The error's text.
    pub fn text(&self) -> (r: String)
        ensures
            r@ == "row not found"@,
    {
        String::from_str("row not found")
    }
}

/// Storage that keeps every record in one in-memory table.
#[derive(Debug)]
pub struct InMemStorage<D> {
    pub map: HashMap<i64, D>,
}

impl<D> InMemStorage<D> {
    pub fn new() -> (r: InMemStorage<D>)
        ensures
            r.map@ == Map::<i64, D>::empty(),
    {
        InMemStorage { map: HashMap::new() }
    }

    /// Stores one record under its id, replacing what was there.
    pub fn record_data(&mut self, id: i64, data: D) -> (r: Result<(), InMemStorageError>)
        ensures
            r is Ok,
            final(self).map@ == old(self).map@.insert(id, data),
    {
        self.map.insert(id, data);
        Ok(())
    }

    /// Looks one record up: a value comes back exactly when the id is stored.
    pub fn fetch_update(&self, id: i64) -> (r: Result<Option<&D>, InMemStorageError>)
        ensures
            r is Ok,
            r.unwrap() is Some <==> self.map@.contains_key(id),
            r.unwrap() is Some ==> r.unwrap().unwrap() == self.map@[id],
    {
        Ok(self.map.get(&id))
    }
}

// The visitor pattern, with a closed pair of visited types.
pub struct Foo {
    pub value: i64,
}

pub struct Bar {
    pub value: i64,
}

/// Something a visitor can call on.
pub trait Base<T> {
    fn accept<V: Visitor<Result = T>>(&self, v: &V) -> T;
}

impl<T> Base<T> for Foo {
    fn accept<V: Visitor<Result = T>>(&self, v: &V) -> T {
        v.visit_foo(self)
    }
}

impl<T> Base<T> for Bar {
    fn accept<V: Visitor<Result = T>>(&self, v: &V) -> T {
        v.visit_bar(self)
    }
}

/// A visitor with one arm per visited type.
pub trait Visitor {
    type Result;

    fn visit_foo(&self, foo: &Foo) -> Self::Result;

    fn visit_bar(&self, bar: &Bar) -> Self::Result;
}

/// A visitor that renders what it visits, keeping its storage handle around.
pub struct StringVisitor<S> {
    pub data: String,
    pub storage: Arc<S>,
}

impl<S> Visitor for StringVisitor<S> {
    type Result = String;

    fn visit_foo(&self, foo: &Foo) -> (r: String)
        ensures
            r@ == "it was Foo: "@ + int_string(foo.value as int) + "!"@,
    {
        String::from_str("it was Foo: ").concat(i64_string(foo.value).as_str()).concat("!")
    }

    fn visit_bar(&self, bar: &Bar) -> (r: String)
        ensures
            r@ == "it was Bar: "@ + int_string(bar.value as int) + "!"@,
    {
        String::from_str("it was Bar: ").concat(i64_string(bar.value).as_str()).concat("!")
    }
}

/// Either visited value, chosen at run time.
pub enum FooOrBar {
    F(Foo),
    B(Bar),
}

impl<T> Base<T> for FooOrBar {
    fn accept<V: Visitor<Result = T>>(&self, v: &V) -> T {
        match self {
            FooOrBar::F(foo) => v.visit_foo(foo),
            FooOrBar::B(bar) => v.visit_bar(bar),
        }
    }
}

/// Picks one of the two demonstration values to visit.
pub fn test_visitor(v: bool) -> (r: FooOrBar)
    ensures
        v ==> (r matches FooOrBar::F(foo) && foo.value == 5),
        !v ==> (r matches FooOrBar::B(bar) && bar.value == 10),
{
    if v {
        FooOrBar::F(Foo { value: 5 })
    } else {
        FooOrBar::B(Bar { value: 10 })
    }
}

pub trait FooBase {

}

pub trait AsFoo {

}

pub struct MyFooStruct;

impl FooBase for MyFooStruct {

}

impl AsFoo for MyFooStruct {

}

/// Accepts any batch of values that can stand in for the base.
pub fn accept_foos<T: AsFoo>(foos: Vec<T>) {
}

/// Hands out the one concrete base value.
pub fn create_foos() -> MyFooStruct {
    MyFooStruct
}

/// The sealing trait: only this crate can let types in.
pub trait Sealed {

}

/// Data usable in the friendly structure below.
pub trait DataTrait: Sealed {

}

/// A provider naming the data it provides.
pub trait TraitA: Sealed {
    type Data;
}

/// A structure whose shape is chosen by a provider.
pub struct UserFriendlyDataStructure<A: TraitA> {
    pub internal_data: A::Data,
    pub _a: PhantomData<A>,
}

/// Reads the provider-chosen data out of the structure.
pub fn important_function<A: TraitA>(data: &UserFriendlyDataStructure<A>) -> &A::Data {
    &data.internal_data
}

/// A fruit read from a tag byte.
#[derive(Debug, PartialEq, Eq, Structural)]
pub enum Fruit {
    Apple,
    Orange,
}

/// Reads a fruit from its tag: 1 is an apple, 2 an orange, anything else is
/// refused.
pub fn fruit_from_byte(x: u8) -> (r: Result<Fruit, ()>)
    ensures
        x == 1 ==> r == Result::<Fruit, ()>::Ok(Fruit::Apple),
        x == 2 ==> r == Result::<Fruit, ()>::Ok(Fruit::Orange),
        x != 1 && x != 2 ==> r is Err,
{
    match x {
        1 => Ok(Fruit::Apple),
        2 => Ok(Fruit::Orange),
        _ => Err(()),
    }
}

/// One cell of a rendered table.
pub struct TableCell {
    pub data: String,
    pub col_span: usize,
    pub pad_content: bool,
}

impl TableCell {
    /// A cell spanning one column, padded.
    pub fn new(data: String) -> (r: TableCell)
        ensures
            r.data == data,
            r.col_span == 1,
            r.pad_content,
    {
        TableCell { data, col_span: 1, pad_content: true }
    }
}

} // verus!
