use rune::{monomorphize_module, with_prelude, Checker, Codegen, Lexer, Lowerer, Parser, Resolver};

/// What is wrong with a program, whichever stage finds it.
fn faults(src: &str) -> Vec<String> {
    let (tokens, errs) = Lexer::new(src).tokenize();
    if !errs.is_empty() {
        return errs.iter().map(|e| e.display()).collect();
    }
    let (module, errs) = Parser::new(tokens).parse_module();
    if !errs.is_empty() {
        return errs.iter().map(|e| e.display()).collect();
    }
    let (res, errs) = Resolver::new().resolve_module(&module);
    if !errs.is_empty() {
        return errs.iter().map(|e| format!("names: {}", e.message)).collect();
    }
    let check = Checker::new(&res).check_module(&module);
    if !check.errors.is_empty() {
        return check.errors.iter().map(|e| format!("types: {}", e.message)).collect();
    }
    let mut hir = Lowerer::new(&res, &check).lower_module(&module);
    if monomorphize_module(&mut hir).is_err() {
        return vec!["no symbols left".to_string()];
    }
    match Codegen::new().compile_module(&hir) {
        Ok(_) => Vec::new(),
        Err(e) => vec![format!("code: {}", e.0)],
    }
}

fn compiles(src: &str) {
    assert_eq!(faults(src), Vec::<String>::new());
}

#[test]
fn arithmetic_and_control_flow() {
    compiles(
        "fn fib(n: i64) -> i64 { if n < 2 { n } else { fib(n - 1) + fib(n - 2) } }
         fn gcd(a: i64, b: i64) -> i64 { let mut x = a; let mut y = b; while y != 0 { let t = x % y; x = y; y = t; } x }
         fn main() -> i64 { let mut s: i64 = 0; for i in 0..=10 { if i == 7 { break; } s += fib(i); } gcd(s, 12) }",
    );
}

#[test]
fn structs_and_methods() {
    compiles(
        "struct Point { x: i64, y: i64 }
         impl Point {
             fn sum(self: Point) -> i64 { self.x + self.y }
             fn moved(self: Point, by: i64) -> Point { Point { x: self.x + by, y: self.y } }
         }
         fn main() -> i64 { let p = Point { x: 1, y: 2 }; let mut q = p.moved(3); q.x = 5; q.sum() }",
    );
}

#[test]
fn enums_and_matches() {
    compiles(
        "enum Shape { Dot, Circle(i64), Rect { w: i64, h: i64 } }
         fn area(s: Shape) -> i64 {
             match s { Shape::Dot => 0, Shape::Circle(r) => 3 * r * r, Shape::Rect { w, h } => w * h }
         }
         fn main() -> i64 { area(Shape::Circle(2)) + area(Shape::Rect { w: 2, h: 3 }) + area(Shape::Dot) }",
    );
}

#[test]
fn texts() {
    compiles(
        "fn greet(name: str) -> str { \"hello, \" + name }
         fn main() -> i64 {
             let s = greet(\"you\");
             print_str(s);
             if s == \"hello, you\" && s.starts_with(\"he\") { s.len() } else { 0 }
         }",
    );
}

#[test]
fn vectors_and_arrays() {
    compiles(
        "fn main() -> i64 {
             let v: Vec<i64> = vec_new();
             v.push(1);
             v.push(2);
             let a = [10, 20, 30];
             let mut t = 0;
             for x in a { t += x; }
             t + a[1] + v.get(0) + v.len()
         }",
    );
}

#[test]
fn generic_functions_and_structs() {
    compiles(
        "struct Pair<A, B> { first: A, second: B }
         fn id<T>(x: T) -> T { x }
         fn swap<A, B>(p: Pair<A, B>) -> Pair<B, A> { Pair { first: p.second, second: p.first } }
         fn main() -> i64 { let p = Pair { first: 1, second: true }; let q = swap(p); if id(q.first) { q.second } else { 0 } }",
    );
}

#[test]
fn traits_and_bounds() {
    compiles(
        "trait Area { fn area(self: Self) -> i64; }
         struct Square { side: i64 }
         impl Area for Square { fn area(self: Square) -> i64 { self.side * self.side } }
         fn twice<T: Area>(x: T) -> i64 { x.area() * 2 }
         fn main() -> i64 { twice(Square { side: 3 }) }",
    );
}

#[test]
fn trait_objects() {
    compiles(
        "trait Area { fn area(self: Self) -> i64; }
         struct Square { side: i64 }
         impl Area for Square { fn area(self: Square) -> i64 { self.side * self.side } }
         fn show(x: dyn Area) -> i64 { x.area() }
         fn main() -> i64 { show(Square { side: 3 }) }",
    );
}

#[test]
fn modules_in_a_program() {
    compiles(
        "mod geometry { pub mod plane { pub fn double(x: i64) -> i64 { helper(x) * 2 } fn helper(x: i64) -> i64 { x } } }
         use geometry::plane::double;
         fn main() -> i64 { double(21) }",
    );
}

#[test]
fn casts_and_widths() {
    compiles(
        "fn main() -> i64 {
             let a: i8 = 5i8;
             let b = a as i64;
             let c = 'x' as i64;
             let d = 1.5 as i64;
             let e = b as f64;
             let f: u8 = 200u8;
             b + c + d + (e as i64) + (f as i64)
         }",
    );
}

#[test]
fn results_from_the_prelude() {
    compiles(&with_prelude(
        "fn half(n: i64) -> std::Result<i64, str> { if n % 2 == 0 { std::Result::Ok(n / 2) } else { std::Result::Err(\"odd\") } }
         fn quarter(n: i64) -> std::Result<i64, str> { let h = half(n)?; half(h) }
         fn main() -> i64 { match quarter(8) { std::Result::Ok(v) => v, std::Result::Err(e) => 0 } }",
    ));
}

#[test]
fn options_from_the_prelude() {
    compiles(&with_prelude(
        "fn first(v: Vec<i64>) -> std::Option<i64> { if v.len() > 0 { std::Option::Some(v.get(0)) } else { std::Option::None } }
         fn main() -> i64 { match first(vec_new()) { std::Option::Some(x) => x, std::Option::None => 0 } }",
    ));
}

#[test]
fn weak_references() {
    compiles("fn main() -> i64 { let v: Vec<i64> = vec_new(); let w = weak(v); let u = upgrade_or(w, v); u.len() }");
}

#[test]
fn wrong_programs_are_refused() {
    assert_eq!(faults("fn main() -> i64 { true }"), vec!["types: function `main` returns `i64` but body has type `bool`"]);
    assert_eq!(faults("fn f(a: i64) { } fn main() { f(true); }"), vec![
        "types: argument 1 has type `bool`, expected `i64`"
    ]);
    assert_eq!(faults("fn f(a: i64) { } fn main() { f(); }"), vec!["types: expected 1 argument, found 0"]);
    assert_eq!(faults("fn main() { let x = 1; x = 2; }").len(), 1);
    assert_eq!(faults("fn main() { if 1 { } }").len(), 1);
}

#[test]
fn functions_on_maps_are_typed() {
    compiles_up_to_code(
        "fn size(m: HashMap<str, i64>) -> i64 { hashmap_cap(m) }
         fn key(m: HashMap<str, i64>, i: i64) -> str { if hashmap_is_live_at(m, i) { hashmap_key_at(m, i) } else { \"\" } }
         fn make() -> HashMap<i64, i64> { let m: HashMap<i64, i64> = hashmap_new(); m }",
    );
    assert_eq!(
        faults("fn f(n: i64) -> i64 { hashmap_cap(n) }"),
        vec!["types: `hashmap_cap` first arg must be `HashMap<K, V>`, got `i64`"]
    );
    assert_eq!(
        faults("fn f(m: HashMap<i64, i64>) -> i64 { hashmap_cap() }"),
        vec!["types: `hashmap_cap` expects 1 argument, found 0"]
    );
}

/// Nothing is wrong with a program before code is made of it.
fn compiles_up_to_code(src: &str) {
    assert!(faults(src).iter().all(|f| f.starts_with("code: ")), "{:?}", faults(src));
}
