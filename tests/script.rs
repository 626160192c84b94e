use omnitext::order::Text;
use omnitext::parser::ParseError;
use omnitext::preprocessor::{Directive, PreprocessError, Preprocessor, PreprocessorState};
use omnitext::render::Fragment;
use omnitext::text::{BlockType, Definition, Duration, LoopingMethod, RValue, Statement, Transparency};

fn pp(text: &str) -> Result<String, PreprocessError> {
    let mut p = Preprocessor::new();
    p.preprocess(text)
}

fn join(frags: &[Fragment]) -> String {
    let mut s = String::new();
    for f in frags {
        match f {
            Fragment::Text(t) => s.push_str(t),
            Fragment::Double(b) => s.push_str(&format!("{}", f64::from_bits(*b))),
        }
    }
    s
}

#[test]
fn define_expands_before_parsing() {
    assert_eq!(pp("#define FOO \"bar\"\nX = FOO;").ok().unwrap(), "X = \"bar\";");
}

#[test]
fn unterminated_comment_is_an_end_state_error() {
    assert!(matches!(
        pp("a /* comment"),
        Err(PreprocessError::UnexpectedEndState(PreprocessorState::SkipComment))
    ));
}

#[test]
fn comments_are_stripped() {
    assert_eq!(pp("a // note\nb /* c */ d\n").ok().unwrap(), "a \nb  d\n");
}

#[test]
fn line_comment_may_end_the_input() {
    assert_eq!(pp("a // trailing").ok().unwrap(), "a ");
}

#[test]
fn define_without_value_expands_to_nothing() {
    assert_eq!(pp("#define GONE\nxGONEy\n").ok().unwrap(), "xy\n");
}

#[test]
fn longest_defined_name_wins() {
    assert_eq!(pp("#define A 1\n#define AB 2\nAB A\n").ok().unwrap(), "2 1\n");
}

#[test]
fn later_define_replaces_earlier() {
    assert_eq!(pp("#define A 1\n#define A 2\nA\n").ok().unwrap(), "2\n");
}

#[test]
fn definitions_persist_across_files() {
    let mut p = Preprocessor::new();
    assert!(p.preprocess("#define K 7\n").is_ok());
    assert_eq!(p.preprocess("K\n").ok().unwrap(), "7\n");
}

#[test]
fn include_is_consumed() {
    assert_eq!(pp("#include \"other.si\"\nz\n").ok().unwrap(), "z\n");
}

#[test]
fn unknown_directive_is_reported_where_it_starts() {
    match pp("x\n#pragma once\n") {
        Err(PreprocessError::UnknownDirective(d, line, col)) => {
            assert_eq!(d, "pragma");
            assert_eq!((line, col), (1, 0));
        },
        _ => panic!("expected an unknown directive"),
    }
}

#[test]
fn directive_parameter_counts_are_checked() {
    assert!(matches!(pp("#define \n"), Err(PreprocessError::NoParams(Directive::Define, 0, 0))));
    assert!(matches!(pp("#define A B C\n"), Err(PreprocessError::TooManyParameters(Directive::Define, 0, 0))));
    assert!(matches!(pp("#include a b\n"), Err(PreprocessError::TooManyParameters(Directive::Include, 0, 0))));
}

#[test]
fn stray_slash_is_an_unexpected_token() {
    assert!(matches!(pp("a / b"), Err(PreprocessError::UnexpectedToken(' ', 0, 3))));
}

const SCRIPT: &str = "defineSound Horn Weave {\n\tfileName = \"HORN.WAV\";\n\tvolume = -3;\n}\n\n\
    defineSettings Configuration {\n\tbufferSizeKB = 10;\n}\n\n\
    parallelAction Car {\n\tloopingMethod = NONE;\n\tduration = INDEFINITE;\n\ttransparency = FAST;\n\
    \tlocation = ( 1.5e2, -0.25 , 3);\n\ton = call(\"a\", \"b\");\n\tnone = f();\n\tHorn;\n}\n";

#[test]
fn script_parses_into_blocks() {
    let text = Text::parse(SCRIPT).ok().expect("parses");
    assert_eq!(text.settings.block_type, BlockType::DefineSettings);
    assert_eq!(text.settings.name, "Configuration");
    assert_eq!(text.blocks.len(), 2);
    let horn = &text.blocks[0];
    assert_eq!(horn.block_type, BlockType::DefineSound);
    assert!(horn.is_weave);
    assert!(matches!(&horn.statements[1], Statement::Assignment(n, RValue::Integer(-3)) if n == "volume"));
    let car = &text.blocks[1];
    assert!(!car.is_weave);
    assert!(matches!(&car.statements[0], Statement::Assignment(_, RValue::Definition(Definition::LoopingMethod(LoopingMethod::Off)))));
    assert!(matches!(&car.statements[1], Statement::Assignment(_, RValue::Definition(Definition::Duration(Duration { value: -1 })))));
    assert!(matches!(&car.statements[2], Statement::Assignment(_, RValue::Definition(Definition::Transparency(Transparency::Fast)))));
    match &car.statements[3] {
        Statement::Assignment(_, RValue::Coords(x, y, z)) => {
            assert_eq!((x.as_str(), y.as_str(), z.as_str()), ("1.5e2", "-0.25", "3"));
        },
        _ => panic!("expected a vector"),
    }
    match &car.statements[4] {
        Statement::Assignment(_, RValue::Function(f)) => {
            assert_eq!(f.name, "call");
            assert_eq!(f.args, vec!["a".to_string(), "b".to_string()]);
        },
        _ => panic!("expected a call"),
    }
    assert!(matches!(&car.statements[5], Statement::Assignment(_, RValue::Function(f)) if f.args.is_empty()));
    assert!(matches!(&car.statements[6], Statement::Declaration(d) if d == "Horn"));
}

#[test]
fn parsed_script_renders_back() {
    let text = Text::parse(SCRIPT).ok().expect("parses");
    let out = join(&text.collect());
    assert!(out.starts_with("defineSettings Configuration {\n\tbufferSizeKB = 10;\n}\n\n"));
    assert!(out.contains("\tlocation = (1.5e2, -0.25, 3);\n"));
    assert!(out.contains("\ton = call(a, b);\n"));
    assert!(out.contains("\tloopingMethod = NONE;\n"));
    assert!(out.contains("\tvolume = -3;\n"));
    assert!(out.contains("defineSound Horn Weave {\n\tfileName = \"HORN.WAV\";\n"));
}

#[test]
fn identifiers_are_ascii_words() {
    let s: Vec<char> = "_ab9 x".chars().collect();
    assert_eq!(omnitext::parser::ident(&s, 0), Some(4));
    assert_eq!(omnitext::parser::ident(&s, 4), None);
    let d: Vec<char> = "9a".chars().collect();
    assert_eq!(omnitext::parser::ident(&d, 0), None);
}

#[test]
fn missing_settings_block_is_an_error() {
    assert!(matches!(Text::parse("defineSound A {\n}\n"), Err(ParseError::NoSettings)));
}

#[test]
fn syntax_error_reports_where_blocks_stop() {
    assert!(matches!(Text::parse("defineSettings C {\n}\n junk"), Err(ParseError::Syntax(22))));
    assert!(matches!(Text::parse("defineSettings C { x = ; }"), Err(ParseError::Syntax(0))));
}

#[test]
fn integer_overflow_is_a_syntax_error() {
    assert!(matches!(Text::parse("defineSettings C { x = 2147483648; }"), Err(ParseError::Syntax(0))));
    let t = Text::parse("defineSettings C { x = -2147483648; }").ok().expect("parses");
    assert!(matches!(&t.settings.statements[0], Statement::Assignment(_, RValue::Integer(i32::MIN))));
}

#[test]
fn preprocess_errors_pass_through_parse() {
    assert!(matches!(Text::parse("/* open"), Err(ParseError::Preprocess(_))));
}

#[test]
fn macros_reach_the_grammar() {
    let t = Text::parse("#define NAME \"HORN.WAV\"\ndefineSettings C { fileName = NAME; }").ok().expect("parses");
    assert!(matches!(&t.settings.statements[0], Statement::Assignment(_, RValue::String(s)) if s == "HORN.WAV"));
}
