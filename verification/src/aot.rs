//! Ahead-of-time compilation: from a program to the code of an executable,
//! and the search for a linker.

use vstd::prelude::*;

use crate::code::{CodegenError, Op, op_views};
use crate::codegen::{Codegen, ModuleCode, fn_code_views, keyed_views, release_views};
use crate::hir::{HirFn, HirItem, HirModule};
use crate::modules::opt_text;
use crate::rules::{main_wrapper, module_made};
use crate::search::{first_where, found_stays};
use crate::text::{same_text, texts};
use crate::ty::SymbolId;

verus! {

/// The name the program's own `main` gets, so that the operating system's
/// entry can have it.
pub open spec fn rune_main_name() -> Seq<char> {
    "__rune_main"@
}

/// Which functions are called `main`.
pub open spec fn is_main(items: Seq<HirItem>) -> spec_fn(int) -> bool {
    |i: int| (items[i]->Fn_0).name@ == "main"@
}

/// Whether items are others with one function's name changed.
pub open spec fn renamed(old_items: Seq<HirItem>, items: Seq<HirItem>, at: int) -> bool {
    &&& items.len() == old_items.len()
    &&& forall|i: int| 0 <= i < items.len() && i != at ==> #[trigger] items[i] == old_items[i]
    &&& (items[at]->Fn_0).name@ == rune_main_name()
    &&& (items[at]->Fn_0) == (HirFn { name: (items[at]->Fn_0).name, ..(old_items[at]->Fn_0) })
}

/// Gives the first function called `main` another name.
fn rename_main(hir: &mut HirModule) -> (r: Option<SymbolId>)
    ensures
        match first_where(is_main(old(hir).items@), old(hir).items@.len()) {
            Some(i) => r == Some((old(hir).items@[i]->Fn_0).sym) && renamed(old(hir).items@, final(hir).items@, i)
                && *final(hir) == (HirModule { items: final(hir).items, ..*old(hir) }),
            None => r is None && *final(hir) == *old(hir),
        },
{
    let ghost p = is_main(hir.items@);
    let n = hir.items.len();
    let mut i: usize = 0;
    while i < n
        invariant
            i <= n,
            n == hir.items@.len(),
            *hir == *old(hir),
            p == is_main(hir.items@),
            first_where(p, i as nat) is None,
        decreases n - i,
    {
        let HirItem::Fn(f) = &hir.items[i];
        if same_text(f.name.as_str(), "main") {
            proof {
                assert(p(i as int));
                assert(first_where(p, (i + 1) as nat) == Some(i as int));
                found_stays(p, (i + 1) as nat, n as nat);
            }
            let sym = f.sym;
            let ghost before = hir.items@;
            match &mut hir.items[i] {
                HirItem::Fn(f) => {
                    f.name = "__rune_main".to_owned();
                },
            }
            assert(renamed(before, hir.items@, i as int));
            return Some(sym);
        }
        assert(!p(i as int));
        i += 1;
    }
    None
}

/// The code of an executable: the module's, and the entry.
#[derive(Debug)]
pub struct ObjectCode {
    pub module: ModuleCode,
    pub main: Vec<Op>,
    /// The symbol of the program's own `main`.
    pub rune_main: SymbolId,
}

/// Generates the code of an executable. The program's `main` is renamed, and
/// an entry that calls it takes its place.
pub fn build_object(hir: &mut HirModule) -> (r: Result<ObjectCode, CodegenError>)
    ensures
        match first_where(is_main(old(hir).items@), old(hir).items@.len()) {
            None => *final(hir) == *old(hir) && (r matches Err(e) && e.0@ == "no `main` function in module"@),
            Some(i) => renamed(old(hir).items@, final(hir).items@, i) && *final(hir) == (HirModule {
                items: final(hir).items,
                ..*old(hir)
            }) && match r {
                Ok(o) => {
                    &&& o.rune_main == (old(hir).items@[i]->Fn_0).sym
                    &&& op_views(o.main@) == main_wrapper(o.rune_main)
                    &&& module_made(Map::empty(), 0, *final(hir)) matches Ok(code) && {
                        &&& code.fns == fn_code_views(o.module.fns@)
                        &&& code.structs == keyed_views(o.module.structs@)
                        &&& code.enums == keyed_views(o.module.enums@)
                        &&& code.vecs == release_views(o.module.vecs@)
                        &&& code.arrays == release_views(o.module.arrays@)
                        &&& code.objects == keyed_views(o.module.objects@)
                        &&& code.sigs.contains_key(o.rune_main)
                    }
                },
                Err(e) => match module_made(Map::empty(), 0, *final(hir)) {
                    Err(m) => e.0@ == m,
                    Ok(code) => !code.sigs.contains_key((old(hir).items@[i]->Fn_0).sym) && e.0@
                        == "main was not declared"@,
                },
            },
        },
{
    match rename_main(hir) {
        None => Err(CodegenError("no `main` function in module".to_owned())),
        Some(rune_main) => {
            let mut cg = Codegen::new();
            let module = cg.compile_module(hir)?;
            if cg.func_id(rune_main).is_none() {
                return Err(CodegenError("main was not declared".to_owned()));
            }
            let main = cg.emit_c_main_wrapper(rune_main);
            Ok(ObjectCode { module, main, rune_main })
        },
    }
}

// ---- linking ----

/// The linkers tried, and why each failed.
#[derive(Debug, Clone)]
pub struct LinkError {
    pub tried: Vec<String>,
    pub errors: Vec<String>,
}

/// The linkers to try, in order: the one the user asks for, then the usual
/// ones.
pub open spec fn linkers(custom: Option<Seq<char>>) -> Seq<Seq<char>> {
    match custom {
        Some(c) => seq![c, "clang"@, "gcc"@, "cc"@],
        None => seq!["clang"@, "gcc"@, "cc"@],
    }
}

pub fn linker_candidates(custom: Option<String>) -> (r: Vec<String>)
    ensures
        texts(r@) == linkers(opt_text(custom)),
{
    let mut out: Vec<String> = Vec::new();
    let ghost wanted = opt_text(custom);
    if let Some(c) = custom {
        out.push(c);
    }
    out.push("clang".to_owned());
    out.push("gcc".to_owned());
    out.push("cc".to_owned());
    assert(texts(out@) =~= linkers(wanted));
    out
}

/// A search for a linker that works.
pub struct LinkSearch {
    candidates: Vec<String>,
    errors: Vec<String>,
}

impl LinkSearch {
    /// The linkers to try.
    pub closed spec fn candidates(self) -> Seq<Seq<char>> {
        texts(self.candidates@)
    }

    /// Why the ones tried so far failed.
    pub closed spec fn errors(self) -> Seq<Seq<char>> {
        texts(self.errors@)
    }

    pub fn new(candidates: Vec<String>) -> (r: Self)
        ensures
            r.candidates() == texts(candidates@),
            r.errors() == Seq::<Seq<char>>::empty(),
    {
        let r = LinkSearch { candidates, errors: Vec::new() };
        assert(r.errors() =~= Seq::<Seq<char>>::empty());
        r
    }

    /// The linker to try next, if one is left.
    pub fn next(&self) -> (r: Option<&String>)
        ensures
            match r {
                Some(c) => self.errors().len() < self.candidates().len() && c@ == self.candidates()[self.errors().len() as int],
                None => self.errors().len() >= self.candidates().len(),
            },
    {
        let i = self.errors.len();
        if i < self.candidates.len() {
            Some(&self.candidates[i])
        } else {
            None
        }
    }

    /// Notes that the linker at hand failed.
    pub fn failed(&mut self, why: String)
        ensures
            final(self).candidates() == old(self).candidates(),
            final(self).errors() == old(self).errors().push(why@),
    {
        let ghost before = self.errors();
        self.errors.push(why);
        assert(self.errors() =~= before.push(why@));
    }

    /// The end of a search in which no linker worked.
    pub fn give_up(self) -> (r: LinkError)
        ensures
            texts(r.tried@) == self.candidates(),
            texts(r.errors@) == self.errors(),
    {
        LinkError { tried: self.candidates, errors: self.errors }
    }
}

} // verus!
