use std::marker::PhantomData;
use std::sync::Arc;
use vstd::prelude::*;

verus! {

/// An evaluator the runtime drives; evaluation consumes the value.
pub trait AsyncEvaluator {
    fn evaluate(self, reducer: Arc<String>);
}

pub struct SomeType;

impl AsyncEvaluator for &mut SomeType {
    fn evaluate(self, reducer: Arc<String>) {
    }
}

/// Watches for messages; each notification carries the message, a token, and
/// the moment it happened, as a plain timestamp.
pub trait Watcher<T>: 'static {
    type Err;

    fn notify(&self, msg: T, token: u64, time: u64) -> Result<(), Self::Err>;
}

pub struct Service;

impl Service {
    /// The one handler the service offers; it always succeeds.
    pub fn my_handler(&self) -> (r: Result<(), ()>)
        ensures
            r is Ok,
    {
        Ok(())
    }
}

pub struct Request;

pub struct Response;

/// Parameters that can be read out of a request.
pub trait FromRequest: Sized {
    fn from_request(request: Request) -> Self;
}

impl FromRequest for () {
    fn from_request(request: Request) -> Self {
        ()
    }
}

/// Something that reacts to a number.
pub trait Manager {
    fn update(&self, n: &i32);
}

/// Something constructed around a borrowed number.
pub trait Execute<'a>: Sized {
    fn new(n: &'a i32) -> Self;
}

pub struct GenericManager<T> {
    pub _phantom_t: PhantomData<T>,
}

pub struct BorrowData<'a> {
    pub data: &'a i32,
}

impl<'a, 'b: 'a> Execute<'b> for BorrowData<'a> {
    fn new(n: &'b i32) -> (r: Self)
        ensures
            r.data == n,
    {
        BorrowData { data: n }
    }
}

/// Names the data a manager hands to its executors.
pub trait WithData<'a> {
    type Data: Execute<'a>;
}

pub struct WithBorrowData;

impl<'a> WithData<'a> for WithBorrowData {
    type Data = BorrowData<'a>;
}

impl<T: for<'a> WithData<'a>> Manager for GenericManager<T> {
    fn update(&self, n: &i32) {
        let _created = <T as WithData>::Data::new(n);
    }
}

pub struct Resources;

/// Data a system pulls out of the shared resources.
pub trait SystemData<'a>: Sized {
    fn setup(res: &Resources);

    fn fetch<'b>(res: &'b Resources) -> Self;
}

/// Ties a prefab to the system data it needs.
pub trait PrefabData<'a> {
    type SystemData: SystemData<'a>;
}

/// Anything that can prepare the shared resources.
pub trait SystemDataSetup {
    fn setup(&self, res: &mut Resources);
}

impl<T> SystemDataSetup for PhantomData<T> where for<'a> T: SystemData<'a> {
    fn setup(&self, res: &mut Resources) {
        T::setup(res);
    }
}

/// Registers a component type: its system data must be constructible for
/// every lifetime the runtime chooses.
pub fn register_component<T>() where
    T: 'static,
    for<'a> T: PrefabData<'a>,
    for<'a, 'b> <T as PrefabData<'a>>::SystemData: SystemData<'b>,
 {
}

} // verus!
