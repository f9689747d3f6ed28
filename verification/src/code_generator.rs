//! The code generator: walks the ordered function definitions and emits a
//! textual stack-machine module — a header, each function's lines, one
//! export per function in definition order, and a footer. It performs no
//! validation; a diagnostic-free tree is its caller's responsibility.

use vstd::prelude::*;
use vstd::string::StringExecFns;
use crate::ast::{func_wat, Ast, AstView};

verus! {

/// The fixed builtin table: callee names that translate directly into one
/// target instruction instead of a function call.
pub open spec fn builtin_wat_spec(name: Seq<char>) -> Option<Seq<char>> {
    if name == "sqrt"@ {
        Some("f32.sqrt\n"@)
    } else if name == "ceil"@ {
        Some("f32.ceil\n"@)
    } else if name == "floor"@ {
        Some("f32.floor\n"@)
    } else if name == "trunc"@ {
        Some("f32.trunc\n"@)
    } else if name == "nearest"@ {
        Some("f32.nearest\n"@)
    } else if name == "abs"@ {
        Some("f32.abs\n"@)
    } else if name == "neg"@ {
        Some("f32.neg\n"@)
    } else {
        None
    }
}

/// The function sections of the module: each definition's lines, in
/// definition order.
pub open spec fn funcs_wat(asts: Seq<AstView>) -> Seq<Seq<char>>
    decreases asts,
{
    if asts.len() == 0 {
        Seq::empty()
    } else {
        funcs_wat(asts.drop_last()) + (match asts.last() {
            AstView::Definition(f) => func_wat(f),
        })
    }
}

/// One export declaration line.
pub open spec fn export_wat(name: Seq<char>) -> Seq<char> {
    "(export \""@ + name + "\" (func $"@ + name + "))\n"@
}

/// The export section: one export per definition, in definition order, so
/// definition order determines export order.
pub open spec fn exports_wat(asts: Seq<AstView>) -> Seq<Seq<char>>
    decreases asts,
{
    if asts.len() == 0 {
        Seq::empty()
    } else {
        exports_wat(asts.drop_last()).push(
            export_wat(
                match asts.last() {
                    AstView::Definition(f) => f.proto.name,
                },
            ),
        )
    }
}

/// The whole module: header, function sections, export section, footer.
pub open spec fn module_wat(asts: Seq<AstView>) -> Seq<Seq<char>> {
    seq!["(module\n"@] + funcs_wat(asts) + exports_wat(asts) + seq![")\n"@]
}

/// The mathematical state of the code generator.
pub ghost struct CodeGenView {
    pub asts: Seq<AstView>,
    pub output: Seq<Seq<char>>,
}

/// The code generator: the definitions to emit and the emitted lines.
/// Writing the lines to a sink is the caller's concern.
pub struct CodeGenerator {
    asts: Vec<Ast>,
    output: Vec<String>,
}

impl View for CodeGenerator {
    type V = CodeGenView;

    closed spec fn view(&self) -> CodeGenView {
        CodeGenView { asts: self.asts.deep_view(), output: self.output.deep_view() }
    }
}

impl CodeGenerator {
    pub fn new(asts: Vec<Ast>) -> (r: Self)
        ensures
            r@.asts == asts.deep_view(),
            r@.output == Seq::<Seq<char>>::empty(),
    {
        let r = Self { asts, output: Vec::new() };
        proof {
            assert(r@.output =~= Seq::<Seq<char>>::empty());
        }
        r
    }

    /// Emits the whole module into the output buffer.
    pub fn run(&mut self)
        ensures
            final(self)@.asts == old(self)@.asts,
            final(self)@.output == module_wat(old(self)@.asts),
    {
        let ghost views = self@.asts;
        let mut out: Vec<String> = Vec::new();
        out.push(String::from_str("(module\n"));
        proof {
            assert(out.deep_view() =~~= seq!["(module\n"@] + funcs_wat(views.subrange(0, 0)));
        }
        let mut i: usize = 0;
        while i < self.asts.len()
            invariant
                i <= self.asts.len(),
                views == self@.asts,
                views.len() == self.asts@.len(),
                forall|j: int| 0 <= j < views.len() ==> views[j] == self.asts@[j].deep_view(),
                out.deep_view() == seq!["(module\n"@] + funcs_wat(views.subrange(0, i as int)),
            decreases self.asts.len() - i,
        {
            let ghost pre = out.deep_view();
            match &self.asts[i] {
                Ast::Definition(f) => {
                    let mut fv = f.to_wat();
                    let ghost fvd = fv.deep_view();
                    proof {
                        assert(views[i as int] == AstView::Definition(f@));
                        assert(fvd == func_wat(f@));
                    }
                    out.append(&mut fv);
                    proof {
                        assert(out.deep_view() =~~= pre + fvd);
                    }
                },
            }
            proof {
                assert(views.subrange(0, i + 1).drop_last() =~= views.subrange(0, i as int));
                assert(views.subrange(0, i + 1).last() == views[i as int]);
                assert(out.deep_view() =~~= seq!["(module\n"@] + funcs_wat(
                    views.subrange(0, i + 1),
                ));
            }
            i = i + 1;
        }
        proof {
            assert(views.subrange(0, views.len() as int) =~= views);
        }
        let ghost funcs_done = out.deep_view();
        let mut i: usize = 0;
        while i < self.asts.len()
            invariant
                i <= self.asts.len(),
                views == self@.asts,
                views.len() == self.asts@.len(),
                forall|j: int| 0 <= j < views.len() ==> views[j] == self.asts@[j].deep_view(),
                out.deep_view() == funcs_done + exports_wat(views.subrange(0, i as int)),
            decreases self.asts.len() - i,
        {
            match &self.asts[i] {
                Ast::Definition(f) => {
                    let name = f.get_function_name();
                    let mut line = String::from_str("(export \"");
                    line.append(name);
                    line.append("\" (func $");
                    line.append(name);
                    line.append("))\n");
                    proof {
                        assert(views[i as int] == AstView::Definition(f@));
                        assert(line@ =~= export_wat(f@.proto.name));
                    }
                    let ghost pre = out.deep_view();
                    out.push(line);
                    proof {
                        assert(out.deep_view() =~~= pre.push(line@));
                    }
                },
            }
            proof {
                assert(views.subrange(0, i + 1).drop_last() =~= views.subrange(0, i as int));
                assert(views.subrange(0, i + 1).last() == views[i as int]);
                assert(out.deep_view() =~~= funcs_done + exports_wat(views.subrange(0, i + 1)));
            }
            i = i + 1;
        }
        out.push(String::from_str(")\n"));
        self.output = out;
        proof {
            assert(views.subrange(0, views.len() as int) =~= views);
            assert(self@.output =~~= module_wat(views));
        }
    }

    /// Gives up the generator, handing the emitted lines out.
    pub fn into_output(self) -> (r: Vec<String>)
        ensures
            r.deep_view() == self@.output,
    {
        self.output
    }

    /// The emitted lines, in order; empty before `run`.
    pub fn output(&self) -> (r: &Vec<String>)
        ensures
            r.deep_view() == self@.output,
    {
        &self.output
    }

    /// Looks a callee name up in the builtin table: the single instruction
    /// it translates to, or nothing for an ordinary call.
    pub fn builtin_funcs(callee: &String) -> (r: Option<String>)
        ensures
            match builtin_wat_spec(callee@) {
                Some(s) => r matches Some(x) && x@ == s,
                None => r is None,
            },
    {
        if *callee == String::from_str("sqrt") {
            Some(String::from_str("f32.sqrt\n"))
        } else if *callee == String::from_str("ceil") {
            Some(String::from_str("f32.ceil\n"))
        } else if *callee == String::from_str("floor") {
            Some(String::from_str("f32.floor\n"))
        } else if *callee == String::from_str("trunc") {
            Some(String::from_str("f32.trunc\n"))
        } else if *callee == String::from_str("nearest") {
            Some(String::from_str("f32.nearest\n"))
        } else if *callee == String::from_str("abs") {
            Some(String::from_str("f32.abs\n"))
        } else if *callee == String::from_str("neg") {
            Some(String::from_str("f32.neg\n"))
        } else {
            None
        }
    }
}

} // verus!
