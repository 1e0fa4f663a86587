//! Runs generated code, operation by operation, on a small machine.

use std::collections::HashMap;

use rune::ast::Item;
use rune::code::{Arith, Callee, Cond, Conversion, FloatCond, Negation, Op, Width};
use rune::codegen::ModuleCode;
use rune::runtime;
use rune::ty::FloatTy;
use rune::{
    monomorphize_module, with_prelude, Checker, Codegen, Lexer, Lowerer, Module, Parser, Resolver, SymbolId,
};

/// Where the addresses of release functions begin; those of other functions are
/// their symbols.
const RELEASES: i64 = 1 << 32;

#[derive(Clone, Copy, Debug, PartialEq)]
enum V {
    I(Width, i64),
    F(f64),
}

impl V {
    fn whole(self) -> i64 {
        match self {
            V::I(_, n) => n,
            V::F(_) => panic!("an integer was expected"),
        }
    }

    fn float(self) -> f64 {
        match self {
            V::F(x) => x,
            V::I(_, _) => panic!("a float was expected"),
        }
    }
}

fn cut(w: Width, n: i64) -> i64 {
    match w {
        Width::I8 => n as i8 as i64,
        Width::I16 => n as i16 as i64,
        Width::I32 => n as i32 as i64,
        _ => n,
    }
}

fn unsigned(w: Width, n: i64) -> u64 {
    match w {
        Width::I8 => n as u8 as u64,
        Width::I16 => n as u16 as u64,
        Width::I32 => n as u32 as u64,
        _ => n as u64,
    }
}

struct Machine<'a> {
    code: &'a ModuleCode,
    /// Memory by byte address.
    memory: HashMap<i64, u8>,
    next: i64,
    /// Every block from `struct_new` or a descriptor, and whether it is in use.
    live: HashMap<i64, bool>,
    vectors: HashMap<i64, Vec<i64>>,
    printed: Vec<String>,
}

impl<'a> Machine<'a> {
    fn new(code: &'a ModuleCode) -> Self {
        Machine {
            code,
            memory: HashMap::new(),
            next: 1 << 20,
            live: HashMap::new(),
            vectors: HashMap::new(),
            printed: Vec::new(),
        }
    }

    fn room(&mut self, size: i64) -> i64 {
        let at = self.next;
        self.next += (size + 15) / 16 * 16 + 16;
        at
    }

    fn put(&mut self, at: i64, bytes: &[u8]) {
        for (i, b) in bytes.iter().enumerate() {
            self.memory.insert(at + i as i64, *b);
        }
    }

    fn get(&self, at: i64, n: usize) -> Vec<u8> {
        (0..n as i64).map(|i| *self.memory.get(&(at + i)).expect("memory that was written")).collect()
    }

    fn word(&self, at: i64) -> i64 {
        i64::from_le_bytes(self.get(at, 8).try_into().expect("eight bytes"))
    }

    fn set_word(&mut self, at: i64, n: i64) {
        self.put(at, &n.to_le_bytes());
    }

    fn load(&self, w: Width, at: i64) -> V {
        match w {
            Width::I8 => V::I(w, self.get(at, 1)[0] as i8 as i64),
            Width::I16 => V::I(w, i16::from_le_bytes(self.get(at, 2).try_into().expect("bytes")) as i64),
            Width::I32 => V::I(w, i32::from_le_bytes(self.get(at, 4).try_into().expect("bytes")) as i64),
            Width::I64 => V::I(w, self.word(at)),
            Width::F32 => V::F(f32::from_le_bytes(self.get(at, 4).try_into().expect("bytes")) as f64),
            Width::F64 => V::F(f64::from_bits(self.word(at) as u64)),
        }
    }

    fn store(&mut self, v: V, at: i64) {
        match v {
            V::I(Width::I8, n) => self.put(at, &(n as i8).to_le_bytes()),
            V::I(Width::I16, n) => self.put(at, &(n as i16).to_le_bytes()),
            V::I(Width::I32, n) => self.put(at, &(n as i32).to_le_bytes()),
            V::I(_, n) => self.set_word(at, n),
            V::F(x) => self.set_word(at, x.to_bits() as i64),
        }
    }

    fn text(&self, at: i64) -> Vec<u8> {
        let len = self.word(at + 8);
        if len == 0 {
            Vec::new()
        } else {
            self.get(self.word(at), len as usize)
        }
    }

    fn new_text(&mut self, bytes: &[u8]) -> i64 {
        let p = self.room(bytes.len() as i64);
        self.put(p, bytes);
        let d = self.room(24);
        self.set_word(d, p);
        self.set_word(d + 8, bytes.len() as i64);
        self.set_word(d + 16, 1);
        self.live.insert(d, true);
        d
    }

    fn free(&mut self, at: i64) {
        assert_eq!(self.live.insert(at, false), Some(true), "freed once");
    }

    fn call(&mut self, name: &str, args: &[i64]) -> Option<i64> {
        match name {
            "print_i64" => {
                self.printed.push(format!("{}", args[0]));
                None
            }
            "print_str" => {
                self.printed.push(String::from_utf8(self.text(args[0])).expect("text"));
                None
            }
            "str_eq" => Some(runtime::str_eq(&self.text(args[0]), &self.text(args[1])) as i64),
            "str_concat" => {
                let bytes = runtime::str_concat(&self.text(args[0]), &self.text(args[1]));
                Some(self.new_text(&bytes))
            }
            "str_slice" => {
                let bytes = runtime::str_slice(&self.text(args[0]), args[1], args[2]);
                Some(self.new_text(&bytes))
            }
            "str_starts_with" => Some(runtime::str_starts_with(&self.text(args[0]), &self.text(args[1])) as i64),
            "str_ends_with" => Some(runtime::str_ends_with(&self.text(args[0]), &self.text(args[1])) as i64),
            "str_contains" => Some(runtime::str_contains(&self.text(args[0]), &self.text(args[1])) as i64),
            "retain_str" => {
                let rc = runtime::retain(self.word(args[0] + 16));
                self.set_word(args[0] + 16, rc);
                None
            }
            "release_str" => {
                let (rc, gone) = runtime::release(self.word(args[0] + 16));
                self.set_word(args[0] + 16, rc);
                if gone {
                    self.free(args[0]);
                }
                None
            }
            "vec_new" => {
                let d = self.room(40);
                self.set_word(d, 0);
                self.set_word(d + 8, 0);
                self.set_word(d + 24, 1);
                self.set_word(d + 32, 1);
                self.live.insert(d, true);
                self.vectors.insert(d, Vec::new());
                Some(d)
            }
            "vec_push" => {
                let items = self.vectors.get_mut(&args[0]).expect("a vector");
                items.push(args[1]);
                let items = items.clone();
                let p = self.room(8 * items.len() as i64);
                for (i, x) in items.iter().enumerate() {
                    self.set_word(p + 8 * i as i64, *x);
                }
                self.set_word(args[0], p);
                self.set_word(args[0] + 8, items.len() as i64);
                None
            }
            "vec_get" => Some(runtime::vec_get(&self.vectors[&args[0]], args[1])),
            "vec_len" => Some(self.vectors[&args[0]].len() as i64),
            "retain_vec" => {
                let rc = runtime::retain(self.word(args[0] + 24));
                self.set_word(args[0] + 24, rc);
                None
            }
            "release_vec" => {
                let counts = runtime::VecCounts { strong: self.word(args[0] + 24), weak: self.word(args[0] + 32) };
                let (counts, what) = runtime::release_vec(counts);
                self.set_word(args[0] + 24, counts.strong);
                self.set_word(args[0] + 32, counts.weak);
                if what.descriptor {
                    self.free(args[0]);
                }
                None
            }
            "struct_new" => {
                let p = self.room(args[0] + 8);
                self.set_word(p + args[0], 1);
                self.live.insert(p, true);
                Some(p)
            }
            "struct_dealloc" => {
                self.free(args[0]);
                None
            }
            "panic_bounds" => panic!("index {} out of range for length {}", args[0], args[1]),
            "panic_no_match" => panic!("no match arm matched"),
            other => panic!("no runtime function {}", other),
        }
    }

    fn run_fn(&mut self, sym: SymbolId, args: &[V]) -> Option<V> {
        let code = self.code;
        let f = code.fns.iter().find(|f| f.sym == sym).expect("a function");
        assert_eq!(f.params.len(), args.len());
        self.run(&f.ops, args)
    }

    fn run(&mut self, ops: &[Op], args: &[V]) -> Option<V> {
        let mut blocks: HashMap<usize, Vec<usize>> = HashMap::new();
        let mut params: HashMap<usize, Vec<usize>> = HashMap::new();
        let mut current = None;
        for (i, op) in ops.iter().enumerate() {
            match op {
                Op::Switch(b) => current = Some(*b),
                Op::BlockParam(b, _) => params.entry(*b).or_default().push(i),
                Op::Block | Op::Seal(_) | Op::Var(_) => {}
                _ => blocks.entry(current.expect("a block")).or_default().push(i),
            }
        }
        let mut values: Vec<Option<V>> = vec![None; ops.len()];
        let mut vars: Vec<Option<V>> = vec![None; ops.len()];
        let mut slots: HashMap<usize, i64> = HashMap::new();
        for (i, op) in ops.iter().enumerate() {
            if let Op::Slot(n) = op {
                slots.insert(i, self.room(*n as i64));
            }
        }
        let mut block = 0;
        'blocks: loop {
            for &i in blocks.get(&block).map(|v| v.as_slice()).unwrap_or(&[]) {
                let val = |j: usize| values[j].expect("a value");
                let sized = |w: Width, n: i64| Some(V::I(w, cut(w, n)));
                let made = match &ops[i] {
                    Op::Param(n) => Some(args[*n]),
                    Op::Assign(x, v) => {
                        vars[*x] = Some(val(*v));
                        None
                    }
                    Op::Read(x) => Some(vars[*x].expect("a variable")),
                    Op::Int(w, n) => sized(*w, *n),
                    Op::Float(FloatTy::F32, d) => Some(V::F(d.parse::<f32>().expect("digits") as f64)),
                    Op::Float(FloatTy::F64, d) => Some(V::F(d.parse::<f64>().expect("digits"))),
                    Op::Arith(a, l, r) => match (val(*l), val(*r)) {
                        (V::I(w, x), V::I(_, y)) => {
                            let (ux, uy) = (unsigned(w, x), unsigned(w, y));
                            sized(
                                w,
                                match a {
                                    Arith::Add => x.wrapping_add(y),
                                    Arith::Sub => x.wrapping_sub(y),
                                    Arith::Mul => x.wrapping_mul(y),
                                    Arith::SDiv => x / y,
                                    Arith::UDiv => (ux / uy) as i64,
                                    Arith::SRem => x % y,
                                    Arith::URem => (ux % uy) as i64,
                                    Arith::And => x & y,
                                    Arith::Or => x | y,
                                    Arith::Xor => x ^ y,
                                    Arith::Shl => x.wrapping_shl(y as u32),
                                    Arith::SShr => x.wrapping_shr(y as u32),
                                    Arith::UShr => ux.wrapping_shr(y as u32) as i64,
                                    _ => panic!("a float operation on integers"),
                                },
                            )
                        }
                        (x, y) => Some(V::F(match a {
                            Arith::FAdd => x.float() + y.float(),
                            Arith::FSub => x.float() - y.float(),
                            Arith::FMul => x.float() * y.float(),
                            Arith::FDiv => x.float() / y.float(),
                            _ => panic!("an integer operation on floats"),
                        })),
                    },
                    Op::Negate(n, v) => match (n, val(*v)) {
                        (Negation::Int, V::I(w, x)) => sized(w, x.wrapping_neg()),
                        (Negation::Bits, V::I(w, x)) => sized(w, !x),
                        (Negation::Float, V::F(x)) => Some(V::F(-x)),
                        _ => panic!("a negation of another kind"),
                    },
                    Op::Compare(c, l, r) => {
                        let (V::I(w, x), y) = (val(*l), val(*r).whole()) else { panic!("integers") };
                        let (ux, uy) = (unsigned(w, x), unsigned(w, y));
                        let b = match c {
                            Cond::Equal => x == y,
                            Cond::NotEqual => x != y,
                            Cond::SLess => x < y,
                            Cond::SGreater => x > y,
                            Cond::SLessEqual => x <= y,
                            Cond::SGreaterEqual => x >= y,
                            Cond::ULess => ux < uy,
                            Cond::UGreater => ux > uy,
                            Cond::ULessEqual => ux <= uy,
                            Cond::UGreaterEqual => ux >= uy,
                        };
                        sized(Width::I8, b as i64)
                    }
                    Op::CompareFloat(c, l, r) => {
                        let (x, y) = (val(*l).float(), val(*r).float());
                        let b = match c {
                            FloatCond::Equal => x == y,
                            FloatCond::NotEqual => x != y,
                            FloatCond::Less => x < y,
                            FloatCond::Greater => x > y,
                            FloatCond::LessEqual => x <= y,
                            FloatCond::GreaterEqual => x >= y,
                        };
                        sized(Width::I8, b as i64)
                    }
                    Op::Convert(c, w, v) => match (c, val(*v)) {
                        (Conversion::SignExtend, V::I(_, x)) => sized(*w, x),
                        (Conversion::ZeroExtend, V::I(from, x)) => sized(*w, unsigned(from, x) as i64),
                        (Conversion::Truncate, V::I(_, x)) => sized(*w, x),
                        (Conversion::FloatFromSigned, V::I(_, x)) => Some(V::F(x as f64)),
                        (Conversion::FloatFromUnsigned, V::I(from, x)) => Some(V::F(unsigned(from, x) as f64)),
                        (Conversion::SignedFromFloat, V::F(x)) => sized(*w, x as i64),
                        (Conversion::UnsignedFromFloat, V::F(x)) => sized(*w, x as u64 as i64),
                        (Conversion::Promote, V::F(x)) => Some(V::F(x)),
                        (Conversion::Demote, V::F(x)) => Some(V::F(x as f32 as f64)),
                        _ => panic!("a conversion of another kind"),
                    },
                    Op::Load(w, p, o) => Some(self.load(*w, val(*p).whole() + *o as i64)),
                    Op::Store(v, p, o) => {
                        self.store(val(*v), val(*p).whole() + *o as i64);
                        None
                    }
                    Op::Slot(_) => None,
                    Op::SlotStore(v, s, o) => {
                        self.store(val(*v), slots[s] + *o as i64);
                        None
                    }
                    Op::SlotAddr(s) => sized(Width::I64, slots[s]),
                    Op::Text(_, s) => {
                        let p = self.room(s.len() as i64);
                        self.put(p, s.as_bytes());
                        sized(Width::I64, p)
                    }
                    Op::Call(c, list) => {
                        let list: Vec<V> = list.iter().map(|j| val(*j)).collect();
                        match c {
                            Callee::Fn(s) => self.run_fn(*s, &list),
                            Callee::Runtime(name) => {
                                let ints: Vec<i64> = list.iter().map(|v| v.whole()).collect();
                                let w = match name.as_str() {
                                    "str_eq" | "str_starts_with" | "str_ends_with" | "str_contains" => Width::I8,
                                    _ => Width::I64,
                                };
                                self.call(name, &ints).map(|n| V::I(w, n))
                            }
                            Callee::ReleaseStruct(s) => {
                                let code = self.code;
                                let f = code.structs.iter().find(|f| f.0 == *s).expect("a release function");
                                self.run(&f.1.ops, &list)
                            }
                            Callee::ReleaseEnum(s) => {
                                let code = self.code;
                                let f = code.enums.iter().find(|f| f.0 == *s).expect("a release function");
                                self.run(&f.1.ops, &list)
                            }
                            Callee::ReleaseVec(n) => {
                                let code = self.code;
                                self.run(&code.vecs[*n].ops, &list)
                            }
                            Callee::ReleaseArray(n) => {
                                let code = self.code;
                                self.run(&code.arrays[*n].ops, &list)
                            }
                            Callee::ReleaseDyn(t) => {
                                let code = self.code;
                                let f = code.objects.iter().find(|f| f.0 == *t).expect("a release function");
                                self.run(&f.1.ops, &list)
                            }
                        }
                    }
                    Op::FnAddr(s) => sized(Width::I64, s.0 as i64),
                    Op::ReleaseAddr(s) => sized(Width::I64, RELEASES + s.0 as i64),
                    Op::CallIndirect(_, _, f, list) => {
                        let list: Vec<V> = list.iter().map(|j| val(*j)).collect();
                        let at = val(*f).whole();
                        if at >= RELEASES {
                            let code = self.code;
                            let f = code.structs.iter().find(|f| f.0.0 as i64 == at - RELEASES).expect("a release function");
                            self.run(&f.1.ops, &list)
                        } else {
                            self.run_fn(SymbolId(at as u32), &list)
                        }
                    }
                    Op::Jump(b, list) => {
                        let list: Vec<V> = list.iter().map(|j| val(*j)).collect();
                        let to = params.get(b).cloned().unwrap_or_default();
                        assert_eq!(to.len(), list.len());
                        for (p, v) in to.iter().zip(list) {
                            values[*p] = Some(v);
                        }
                        block = *b;
                        continue 'blocks;
                    }
                    Op::Branch(c, yes, no) => {
                        block = if val(*c).whole() != 0 { *yes } else { *no };
                        continue 'blocks;
                    }
                    Op::Return(list) => return list.first().map(|j| val(*j)),
                    Op::Trap(n) => panic!("trap {}", n),
                    Op::Block | Op::BlockParam(_, _) | Op::Switch(_) | Op::Seal(_) | Op::Var(_) => None,
                };
                values[i] = made;
            }
            panic!("a block without an end");
        }
    }
}

fn parsed(src: &str) -> Module {
    let (tokens, errs) = Lexer::new(src).tokenize();
    assert!(errs.is_empty(), "{:?}", errs);
    let (module, errs) = Parser::new(tokens).parse_module();
    assert!(errs.is_empty(), "{:?}", errs);
    module
}

/// What `main` returns, what was printed, and how much heap is left in use.
fn run(src: &str) -> (i64, Vec<String>, usize) {
    run_module(parsed(src))
}

fn run_module(module: Module) -> (i64, Vec<String>, usize) {
    let (res, errs) = Resolver::new().resolve_module(&module);
    assert!(errs.is_empty(), "{:?}", errs);
    let check = Checker::new(&res).check_module(&module);
    assert!(check.errors.is_empty(), "{:?}", check.errors);
    let mut hir = Lowerer::new(&res, &check).lower_module(&module);
    assert!(monomorphize_module(&mut hir).is_ok());
    let code = match Codegen::new().compile_module(&hir) {
        Ok(code) => code,
        Err(e) => panic!("{}", e.0),
    };
    let main = code.fns.iter().find(|f| f.name == "main").expect("main").sym;
    let mut machine = Machine::new(&code);
    let result = machine.run_fn(main, &[]).map(|v| v.whole()).unwrap_or(0);
    let left = machine.live.values().filter(|l| **l).count();
    (result, machine.printed, left)
}

#[test]
fn loops_and_recursion_run() {
    let src = "fn fib(n: i64) -> i64 { if n < 2 { n } else { fib(n - 1) + fib(n - 2) } }
               fn main() -> i64 { let mut s = 0; for i in 0..=10 { if i == 7 { break; } s += fib(i); } while s > 15 { s -= 1; } s * 10 + fib(10) }";
    assert_eq!(run(src), (205, vec![], 0));
}

#[test]
fn integers_keep_their_width_and_sign() {
    assert_eq!(run("fn main() -> i64 { let a: u8 = 200u8; let b: u8 = 100u8; (a + b) as i64 }").0, 44);
    assert_eq!(run("fn main() -> i64 { let a: i8 = -100i8; (a / 3i8) as i64 }").0, -33);
    assert_eq!(run("fn main() -> i64 { let a: u8 = 200u8; (a / 3u8) as i64 }").0, 66);
    assert_eq!(run("fn main() -> i64 { (7 % 4) + (1 << 4) + (-16 >> 2) + (6 & 3) + (6 | 1) + (6 ^ 2) + ~0 }").0, 27);
}

#[test]
fn floats_run() {
    assert_eq!(run("fn main() -> i64 { let x = 1.5; let y = x * 4.0 - 0.5; if y > 5.0 { (y * 2.0) as i64 } else { 0 } }").0, 11);
}

#[test]
fn both_sides_of_logic_are_short() {
    let src = "fn t(n: i64) -> bool { print_i64(n); true }
               fn main() -> i64 { if t(1) || t(2) { if !t(3) && t(4) { 1 } else { 2 } } else { 3 } }";
    assert_eq!(run(src), (2, vec!["1".to_string(), "3".to_string()], 0));
}

#[test]
fn structs_run_and_are_reclaimed() {
    let src = "struct Point { x: i64, y: i64 }
               impl Point {
                   fn sum(self: Point) -> i64 { self.x + self.y }
                   fn moved(self: Point, by: i64) -> Point { Point { x: self.x + by, y: self.y } }
               }
               fn main() -> i64 { let p = Point { x: 1, y: 2 }; let mut q = p.moved(3); q.y = 10; let r = q; r.sum() + p.sum() }";
    assert_eq!(run(src), (17, vec![], 0));
}

#[test]
fn enums_run() {
    let src = "enum Shape { Dot, Circle(i64), Rect { w: i64, h: i64 } }
               fn area(s: Shape) -> i64 { match s { Shape::Dot => 1, Shape::Circle(r) => 3 * r * r, Shape::Rect { w, h } => w * h } }
               fn main() -> i64 {
                   let a = Shape::Circle(2); let b = Shape::Rect { w: 5, h: 7 }; let c = Shape::Dot;
                   area(a) * 10000 + area(b) * 100 + area(c)
               }";
    assert_eq!(run(src), (123501, vec![], 0));
}

#[test]
fn patterns_run() {
    let src = "fn kind(n: i64) -> i64 { match n { 0 => 100, 1 | 2 => 200, 3..10 => 300, -5..=-1 => 400, k if k > 50 => k, _ => 500 } }
               fn main() -> i64 { kind(0) + kind(2) + kind(9) + kind(-5) + kind(60) + kind(10) }";
    assert_eq!(run(src).0, 100 + 200 + 300 + 400 + 60 + 500);
}

#[test]
fn texts_run() {
    let src = "fn greet(name: str) -> str { \"hello, \" + name }
               fn main() -> i64 {
                   let s = greet(\"you\");
                   print_str(s);
                   let t = s[0..5];
                   print_str(t);
                   if t == \"hello\" && s.ends_with(\"you\") && s.contains(\"lo, \") && t != s { s.len() + s[1] } else { 0 }
               }";
    let (n, printed, _) = run(src);
    assert_eq!(n, 10 + 101);
    assert_eq!(printed, vec!["hello, you", "hello"]);
}

#[test]
fn vectors_run_and_are_reclaimed() {
    let src = "fn total(v: Vec<i64>) -> i64 { let mut t = 0; for i in 0..v.len() { t += v.get(i); } t }
               fn main() -> i64 { let v: Vec<i64> = vec_new(); for i in 1..=4 { v.push(i * i); } let w = v; total(w) + w.len() }";
    assert_eq!(run(src), (34, vec![], 0));
}

#[test]
fn arrays_run() {
    let src = "fn main() -> i64 { let a = [3, 1, 4, 1, 5]; let mut t = 0; for x in a { t = t * 10 + x; } t + a[4] + a.len() }";
    assert_eq!(run(src).0, 31415 + 5 + 5);
}

#[test]
fn structs_in_structs_are_reclaimed_together() {
    let src = "struct Inner { n: i64 }
               struct Outer { a: Inner, v: Vec<i64> }
               fn make(n: i64) -> Outer { let v: Vec<i64> = vec_new(); v.push(n); Outer { a: Inner { n: n }, v: v } }
               fn main() -> i64 { let o = make(20); let i = o.a; i.n + o.v.get(0) }";
    let (n, _, _) = run(src);
    assert_eq!(n, 40);
}

#[test]
fn generics_run() {
    let src = "struct Pair<A, B> { first: A, second: B }
               fn id<T>(x: T) -> T { x }
               fn swap<A, B>(p: Pair<A, B>) -> Pair<B, A> { Pair { first: p.second, second: p.first } }
               fn main() -> i64 { let p = Pair { first: 41, second: true }; let q = swap(p); if id(q.first) { id(q.second) + 1 } else { 0 } }";
    assert_eq!(run(src).0, 42);
}

#[test]
fn traits_run() {
    let src = "trait Area { fn area(self: Self) -> i64; fn scale(self: Self, by: i64) -> i64; }
               struct Square { side: i64 }
               struct Rect { w: i64, h: i64 }
               impl Area for Square { fn area(self: Square) -> i64 { self.side * self.side } fn scale(self: Square, by: i64) -> i64 { self.side * by } }
               impl Area for Rect { fn scale(self: Rect, by: i64) -> i64 { self.w * by + self.h } fn area(self: Rect) -> i64 { self.w * self.h } }
               fn twice<T: Area>(x: T) -> i64 { x.area() * 2 }
               fn boxed(x: dyn Area) -> i64 { x.area() * 100 + x.scale(10) }
               fn main() -> i64 { twice(Square { side: 3 }) + boxed(Rect { w: 2, h: 5 }) }";
    assert_eq!(run(src).0, 18 + 1000 + 25);
}

#[test]
fn early_returns_and_nested_blocks_run() {
    let src = "fn find(v: Vec<i64>, x: i64) -> i64 { for i in 0..v.len() { let w = v; if w.get(i) == x { return i; } } 0 - 1 }
               fn main() -> i64 {
                   let v: Vec<i64> = vec_new(); v.push(7); v.push(8);
                   let a = { let b = find(v, 8); b * 10 };
                   a + find(v, 9)
               }";
    assert_eq!(run(src), (9, vec![], 0));
}

#[test]
fn results_run() {
    let src = with_prelude(
        "fn half(n: i64) -> std::Result<i64, str> { if n % 2 == 0 { std::Result::Ok(n / 2) } else { std::Result::Err(\"odd\") } }
         fn quarter(n: i64) -> std::Result<i64, str> { let h = half(n)?; half(h) }
         fn value(r: std::Result<i64, str>) -> i64 { match r { std::Result::Ok(v) => v, std::Result::Err(e) => 100 + e.len() } }
         fn main() -> i64 { value(quarter(8)) + value(quarter(6)) + std::max(1, std::abs(-4)) + std::min(2, 3) }",
    );
    assert_eq!(run(&src).0, 2 + 103 + 4 + 2);
}

#[test]
fn modules_run() {
    let src = "mod geometry { pub mod plane { pub fn double(x: i64) -> i64 { helper(x) * 2 } fn helper(x: i64) -> i64 { x + 1 } } pub const N: i64 = 3; }
               use geometry::plane::double;
               fn main() -> i64 { double(20) }";
    assert_eq!(run(src).0, 42);
}

#[test]
fn arrays_are_reclaimed() {
    let src = "fn make(n: i64) -> [i64; 3] { let a = [n, n + 1, n + 2]; a }
               fn main() -> i64 { let a = make(5); let b = a; a[0] * 100 + b[1] * 10 + b[2] }";
    assert_eq!(run(src), (500 + 60 + 7, vec![], 0));
    let small = "fn main() -> i64 { let a: [u8; 3] = [1u8, 2u8, 3u8]; let b = [true, false]; if b[0] { (a[0] + a[2]) as i64 } else { 0 } }";
    assert_eq!(run(small), (4, vec![], 0));
}

#[test]
fn the_elements_of_an_array_are_reclaimed_with_it() {
    let src = "struct Point { x: i64, y: i64 }
               fn main() -> i64 {
                   let p = Point { x: 1, y: 2 };
                   let ps = [p, Point { x: 3, y: 4 }];
                   let q = ps[1];
                   let mut t = 0;
                   for r in ps { t += r.x; }
                   t * 100 + q.y * 10 + p.y
               }";
    assert_eq!(run(src), (442, vec![], 0));
    let nested = "fn main() -> i64 { let g = [[1, 2], [3, 4]]; let row = g[1]; row[0] * 10 + row[1] }";
    assert_eq!(run(nested), (34, vec![], 0));
    let held = "struct Grid { cells: [i64; 2], name: str }
                fn main() -> i64 { let g = Grid { cells: [4, 2], name: \"g\" }; g.cells[0] * 10 + g.cells[1] }";
    assert_eq!(run(held), (42, vec![], 0));
}

#[test]
fn an_empty_struct_runs_and_is_reclaimed() {
    let src = "struct Unit { }
               impl Unit { fn one(self: Unit) -> i64 { 1 } }
               fn main() -> i64 { let u = Unit { }; let w = u; u.one() + w.one() }";
    assert_eq!(run(src), (2, vec![], 0));
}

#[test]
fn an_error_is_converted_on_its_way_out() {
    let src = with_prelude(
        "trait Into { }
         struct Low { code: i64 }
         struct High { code: i64 }
         struct Other { code: i64 }
         impl Into<Other> for Low { fn into(self: Low) -> Other { Other { code: 0 - self.code } } }
         impl Into<High> for Low { fn into(self: Low) -> High { High { code: self.code * 10 } } }
         fn low(n: i64) -> std::Result<i64, Low> { if n > 0 { std::Result::Ok(n) } else { std::Result::Err(Low { code: 7 }) } }
         fn high(n: i64) -> std::Result<i64, High> { let v = low(n)?; std::Result::Ok(v + 1) }
         fn value(r: std::Result<i64, High>) -> i64 { match r { std::Result::Ok(v) => v, std::Result::Err(e) => e.code } }
         fn main() -> i64 { value(high(4)) * 1000 + value(high(0)) }",
    );
    assert_eq!(run(&src).0, 5070);
}

#[test]
fn a_loop_over_a_bounded_iterator_runs() {
    let src = with_prelude(
        "use std::Iterator;
         struct Count { n: i64 }
         impl std::Iterator for Count {
             type Item = i64;
             fn next(self: Count) -> std::Option<i64> { if self.n > 0 { self.n = self.n - 1; std::Option::Some(self.n) } else { std::Option::None } }
         }
         fn total(c: Count) -> i64 { let mut t = 0; for v in c { t = t * 10 + v; } t }
         fn first<T: Iterator>(x: T) -> std::Option<T::Item> { x.next() }
         fn main() -> i64 { let c = Count { n: 4 }; let f = first(c); match f { std::Option::Some(v) => v * 1000 + total(c), std::Option::None => 0 } }",
    );
    assert_eq!(run(&src).0, 3210);
}

#[test]
fn default_methods_run() {
    let src = "trait Area { fn area(self: Self) -> i64; fn twice(self: Self) -> i64; }
               struct Square { side: i64 }
               struct Rect { w: i64, h: i64 }
               impl Area for Square { fn area(self: Square) -> i64 { self.side * self.side } }
               impl Area for Rect { fn area(self: Rect) -> i64 { self.w * self.h } fn twice(self: Rect) -> i64 { 7 } }
               fn both<T: Area>(x: T) -> i64 { x.twice() }
               fn main() -> i64 { let s = Square { side: 3 }; s.twice() * 1000 + both(s) * 10 + both(Rect { w: 2, h: 5 }) }";
    let mut m = parsed(src);
    let further = " ".repeat(src.len()) + "fn twice(self: i64) -> i64 { self.area() * 2 + 1 }";
    let Item::Fn(f) = parsed(&further).items.remove(0) else { panic!("a function") };
    let Item::Trait(t) = &mut m.items[0] else { panic!("a trait") };
    t.methods[1].body = Some(f.body);
    assert_eq!(run_module(m).0, 19197);
}

#[test]
fn default_methods_speak_of_their_own_type() {
    let src = "trait Area { fn area(self: Self) -> i64; fn later(self: Self, o: Self) -> Self; }
               struct Square { side: i64 }
               impl Area for Square { fn area(self: Square) -> i64 { self.side * self.side } }
               fn pick<T: Area>(a: T, b: T) -> i64 { let c = a.later(b); c.area() }
               fn main() -> i64 { let s = Square { side: 3 }; let t = Square { side: 4 }; let u = s.later(t); pick(u, s) * 100 + u.area() }";
    let mut m = parsed(src);
    let further = " ".repeat(src.len()) + "fn later(self: i64, o: i64) -> i64 { o }";
    let Item::Fn(f) = parsed(&further).items.remove(0) else { panic!("a function") };
    let Item::Trait(t) = &mut m.items[0] else { panic!("a trait") };
    t.methods[1].body = Some(f.body);
    assert_eq!(run_module(m), (916, vec![], 0));
}

#[test]
fn trait_objects_are_reclaimed() {
    let src = "trait Area { fn area(self: Self) -> i64; }
               struct Square { side: i64 }
               struct Named { shape: dyn Area, name: str }
               impl Area for Square { fn area(self: Square) -> i64 { self.side * self.side } }
               fn boxed(n: i64) -> dyn Area { let s: dyn Area = Square { side: n }; s }
               fn main() -> i64 {
                   let s = Square { side: 2 };
                   let a: dyn Area = s;
                   let b = a;
                   let n = Named { shape: Square { side: 5 }, name: \"n\" };
                   let c = n.shape;
                   let d = boxed(10);
                   let all = [a, d];
                   let e = all[1];
                   s.area() + b.area() * 10 + c.area() + e.area() * 10
               }";
    assert_eq!(run(src), (4 + 40 + 25 + 1000, vec![], 0));
}

#[test]
fn supertrait_methods_are_called_on_trait_objects() {
    let src = "trait Animal { fn legs(self: Self) -> i64; fn size(self: Self) -> i64; }
               trait Dog { fn bark(self: Self) -> i64; }
               struct Rex { n: i64 }
               impl Animal for Rex { fn legs(self: Rex) -> i64 { 4 } fn size(self: Rex) -> i64 { self.n } }
               impl Dog for Rex { fn bark(self: Rex) -> i64 { self.n + 1 } }
               fn of_dog(d: dyn Dog) -> i64 { d.bark() * 100 + d.size() * 10 + d.legs() }
               fn of_animal(a: dyn Animal) -> i64 { a.size() * 10 + a.legs() }
               fn main() -> i64 { let d: dyn Dog = Rex { n: 6 }; let a: dyn Animal = Rex { n: 3 }; of_dog(d) * 100 + of_animal(a) }";
    let mut m = parsed(src);
    let further = " ".repeat(src.len()) + "impl Animal for Rex { }";
    let Item::Impl(i) = parsed(&further).items.remove(0) else { panic!("an impl") };
    let Item::Trait(t) = &mut m.items[1] else { panic!("a trait") };
    t.supertraits.push(i.trait_path.expect("a trait"));
    assert_eq!(run_module(m), (76434, vec![], 0));
}
