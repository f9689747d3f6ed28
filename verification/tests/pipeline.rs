use minilang::compile;
use minilang::token::Token;
use minilang::CompileOutcome;

/// A sink standing in for the output file: code generation is simulated by
/// collecting what would be written.
struct Sink {
    writes: Vec<String>,
}

impl Sink {
    fn write_module(&mut self, outcome: &CompileOutcome) {
        if let CompileOutcome::Module(lines) = outcome {
            for line in lines {
                self.writes.push(line.clone());
            }
        }
    }
}

#[test]
fn it_compiles_a_clean_program_to_a_module() {
    let outcome = compile(&"def add(x y) x+y;".as_bytes().to_vec());

    match outcome {
        CompileOutcome::Module(lines) => {
            let text = lines.join("");
            assert!(text.starts_with("(module\n"));
            assert!(text.contains("(func $add (param $x f32) (param $y f32) (result f32)\n"));
            assert!(text.contains("local.get $x\nlocal.get $y\nf32.add\n"));
            assert!(text.contains("(export \"add\" (func $add))\n"));
            assert!(text.ends_with(")\n"));
        },
        _ => panic!("expected a module"),
    }
}

#[test]
fn it_never_reaches_code_generation_with_diagnostics() {
    let mut sink = Sink { writes: vec![] };
    let outcome = compile(&"def broken( x 1; def fine(a) a;".as_bytes().to_vec());
    sink.write_module(&outcome);

    match &outcome {
        CompileOutcome::Rejected(errors) => {
            assert!(!errors.is_empty());
        },
        _ => panic!("expected the run to be rejected"),
    }
    assert!(sink.writes.is_empty());
}

#[test]
fn it_aborts_on_malformed_utf8() {
    let outcome = compile(&vec![0x64u8, 0xffu8, 0x66u8]);

    assert!(matches!(outcome, CompileOutcome::Fault(_)));
}

#[test]
fn it_compiles_an_empty_source_to_an_empty_module() {
    match compile(&Vec::new()) {
        CompileOutcome::Module(lines) => assert_eq!(lines.join(""), "(module\n)\n"),
        _ => panic!("expected a module"),
    }
}

#[test]
fn it_sorts_tokens_into_precedence_tiers() {
    for t in [Token::Plus, Token::Minus, Token::Or] {
        assert!(t.is_addition_operator());
        assert!(!t.is_multiplication_operator());
        assert!(!t.is_comparison_operator());
    }
    for t in [Token::Star, Token::Slash, Token::And] {
        assert!(t.is_multiplication_operator());
        assert!(!t.is_addition_operator());
        assert!(!t.is_comparison_operator());
    }
    for t in [Token::Less, Token::Greater, Token::Equal, Token::NotEq] {
        assert!(t.is_comparison_operator());
        assert!(!t.is_addition_operator());
        assert!(!t.is_multiplication_operator());
    }
    for t in [Token::Eof, Token::Define, Token::Identifier, Token::Number, Token::Semicolon] {
        assert!(!t.is_addition_operator());
        assert!(!t.is_multiplication_operator());
        assert!(!t.is_comparison_operator());
    }
}
