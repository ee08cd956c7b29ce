use instructions::patterns::{
    f, my_take, unique_permutations, value_for_num, Context, ContextData, ContextStrategy,
    Decoder, Fnord, Person, SomeTrait, YourObject,
};
use instructions::syracuse::Radix;

#[test]
pub fn test_strategy() {
    let context = Context {
        s: ContextStrategy,
        data: ContextData::default(),
    };
    context.do_it();
}

#[test]
pub fn patterns_test_test_strategy() {
    let context = Context {
        s: ContextStrategy,
        data: ContextData::default(),
    };
    context.do_it();
}

#[test]
pub fn some_trait_take_test() {
    let mut obj: i32 = 42;
    assert_eq!(obj.some_method(), "42");
    drop(my_take(&mut obj));
    assert_eq!(obj.some_method(), "0");
    assert_eq!(().some_method(), "I'm the One!");
}

#[test]
pub fn patterns_test_some_trait_take_test() {
    let mut obj: i32 = 42;
    assert_eq!(obj.some_method(), "42");
    drop(my_take(&mut obj));
    assert_eq!(obj.some_method(), "0");
    assert_eq!(().some_method(), "I'm the One!");
}

#[test]
pub fn test_number_base_to_string() {
    assert_eq!(Radix::new(1234, 10).unwrap().render(), "1234");
    assert_eq!(Radix::new(1000, 10).unwrap().render(), "1000");
    assert_eq!(Radix::new(0, 10).unwrap().render(), "0");
}

#[test]
fn radix_accepts_only_sensible_bases() {
    assert!(Radix::new(5, 1).is_err());
    assert!(Radix::new(5, 37).is_err());
    assert_eq!(Radix::new(255, 16).unwrap().render(), "ff");
    assert_eq!(Radix::new(-6, 2).unwrap().render(), "-110");
}

#[test]
fn test_permutations() {
    let items = vec![
        "BTC".to_string(),
        "ETH".to_string(),
        "DOT".to_string(),
        "USD".to_string(),
        "USDC".to_string(),
    ];
    for perm in unique_permutations(items) {
        println!("{:?}", perm);
    }
}

#[test]
fn repeated_words_permute_without_repeating_starts() {
    let perms = unique_permutations(vec!["a".to_string(), "b".to_string(), "a".to_string()]);
    for perm in &perms {
        assert_eq!(perm.len(), 3);
    }
}

#[test]
fn test_function_parameterized_trait() {
    let obj = YourObject {
        v1: vec![1, 2],
        v2: vec![3],
    };
    let mut seen = Vec::new();
    for s in obj.iter_as() {
        println!("{}", s.do_it());
        seen.push(s.do_it());
    }
    assert_eq!(seen, vec![1, 2, 3]);
}

#[test]
fn test_lifetime_thingy() {
    let tmp_val = String::from("two");
    if let Some(test_thingy) = value_for_num(&tmp_val) {
        println!("test_thingy: {:?}", test_thingy);
    }
    assert_eq!(value_for_num("two").unwrap().label, "two");
    assert!(value_for_num("four").is_none());
}

#[test]
fn test_from_str() {
    let p = Person::from("mark,");
    println!("{:?}", p);
    assert_eq!(p.name, "John");
    assert_eq!(p.age, 30);
    let q = Person::from("mark,31");
    assert_eq!(q.name, "mark");
    assert_eq!(q.age, 31);
    let d = Person::from("nocomma");
    assert_eq!(d.name, "John");
    assert_eq!(d.age, 30);
}

#[test]
fn test_cow_stuff() {
    println!("{}", f(""));
    assert_eq!(f(""), "empty");
    assert_eq!(f("full"), "full");
}

#[test]
fn test_more_matching_patterns() {
    let idx = 6;
    let num = 15;
    let res = match idx {
        n if (1..=num - 5).contains(&n) => Some("match!"),
        _ => None,
    };
    println!("{:?}", res);
    assert_eq!(res, Some("match!"));
}

#[test]
fn test_start_end_iteration() {
    let v = vec![1, 2, 3, 4, 5];
    let mut s = &v[..];
    loop {
        match s {
            [a, rest @ .., b] => {
                println!("{}, {}", a, b);
                s = rest;
            }
            [a] => {
                println!("{}", a);
                break;
            }
            [] => break,
        }
    }
}

#[test]
fn the_decoder_hands_out_the_demonstration_packet() {
    let d = Decoder {};
    let p = d.receiver();
    assert_eq!(p.data, &[0, 1, 2]);
}

pub struct Holder<F, T> {
    pub data: T,
    pub f: F,
}

pub trait FIsAFunction<F, T, P> {
    fn call_f(&self, arg: P);
}

impl<F, T, P> FIsAFunction<F, T, P> for Holder<F, T>
where
    T: Copy,
    F: Fn(T, P),
{
    fn call_f(&self, arg: P) {
        (self.f)(self.data, arg);
    }
}

fn callback(x: u32, y: &str) {
    println!("I was given {:?} and {:?}", x, y)
}

#[test]
fn test_trait_bound_func() {
    let holder = Holder {
        data: 1u32,
        f: callback,
    };
    holder.call_f("hello!");
}

#[test]
fn test_maintain_interior_mutability() {
    let numbers: std::collections::HashMap<usize, std::cell::Cell<i32>> = vec![0; 100]
        .into_iter()
        .enumerate()
        .map(|(i, _)| (i, std::cell::Cell::new(i as i32)))
        .collect();
    let even_references = numbers.iter().filter(|(_, n)| n.get() & 1 == 0);
    let odd_references = numbers.iter().filter(|(_, n)| n.get() & 1 != 0);

    even_references.for_each(|item| item.1.set(item.1.get() * 2));
    odd_references.for_each(|item| item.1.set(item.1.get() * 2));

    println!("{numbers:?}");
    assert_eq!(numbers[&3].get(), 6);
}

#[test]
fn test_abstract_iterator() {
    assert_eq!(instructions::patterns::abstract_iterator(&vec![1, 2, 1]), vec![0, 1, 0]);
    assert_eq!(instructions::patterns::abstract_iterator(&vec![]), vec![]);
    assert_eq!(instructions::patterns::abstract_iterator(&vec![7, 7, 7]), vec![0, 0, 0]);
}

pub struct FontLoader(pub String);

pub struct Font(pub String);

impl FontLoader {
    fn load(&self) -> Font {
        Font(self.0.clone())
    }
}

pub struct Window;

pub struct Phi<'window> {
    pub window: &'window Window,
    pub loader: FontLoader,
    pub font: Option<Font>,
}

impl<'window> Phi<'window> {
    fn do_the_thing(&mut self) {
        let font = self.loader.load();
        self.font = Some(font);
    }
}

#[test]
fn test_window_load() {
    let window = Window;
    let mut p1 = Phi {
        window: &window,
        loader: FontLoader(String::from("example")),
        font: None,
    };
    p1.do_the_thing();

    println!("{} =?= {}", &p1.loader.0, p1.font.as_ref().unwrap().0);

    let p2 = p1;
    println!("{} =?= {}", &p2.loader.0, p2.font.as_ref().unwrap().0);
    assert_eq!(p2.loader.0, p2.font.unwrap().0);
}
