use negentropy::config::{Config, File};
use negentropy::grammar::Source;
use negentropy::kernel::{check, structure};

fn laws(text: &str) -> Vec<String> {
    let source = Source {
        path: "t.rs".to_string(),
        text: text.to_string(),
    };
    let node = structure(&source);
    let config = Config {
        file: File::default(),
        vocab: Vec::new(),
    };
    check(&source, &node, &config)
        .iter()
        .map(|f| f.law.clone())
        .collect()
}

#[test]
fn depth() {
    assert!(
        laws("fn f() { if a { for b in c { while d { let x = 1; } } } }")
            .contains(&"block".to_string())
    );
}

#[test]
fn literal() {
    assert!(
        !laws("fn f() { if a { for b in c { let v = S { x: 1 }; } } }")
            .contains(&"block".to_string())
    );
}

#[test]
fn coverage() {
    assert!(
        !laws("use a::{B, C};\npub fn f() -> u32 { 1 }\ntrait T { fn m(&self); }")
            .contains(&"coverage".to_string())
    );
}

#[test]
fn comment() {
    assert!(laws("fn f() {}\n// note").contains(&"comment".to_string()));
}

#[test]
fn compound() {
    assert!(laws("fn read_file() {}").contains(&"word".to_string()));
}

#[test]
fn reference() {
    assert!(!laws("fn read() { write_all(); }").contains(&"word".to_string()));
}

#[test]
fn binding() {
    assert!(laws("fn f() { let bad_name = 1; }").contains(&"word".to_string()));
    assert!(
        !laws("fn f() { let good = 1; if let Some(x) = y {} }").contains(&"word".to_string())
    );
}

#[test]
fn field() {
    assert!(laws("struct S { bad_field: u32 }").contains(&"word".to_string()));
    assert!(!laws("struct S { good: u32 }\nenum E { Ok, Bad }").contains(&"word".to_string()));
}
