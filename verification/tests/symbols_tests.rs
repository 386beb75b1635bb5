use eval_harness::symbols::{is_builtin_symbol, is_hot_builtin_symbol, starts_with};

#[test]
fn builtin_symbols_are_marked_internal() {
    assert!(is_builtin_symbol("roc_builtins.list.len"));
    assert!(is_builtin_symbol("roc_builtins"));
    assert!(!is_builtin_symbol("main"));
    assert!(!is_builtin_symbol("roc_builtin"));
}

#[test]
fn only_dictionary_builtins_are_tagged_always_inline() {
    assert!(is_hot_builtin_symbol("roc_builtins.dict.insert"));
    assert!(!is_hot_builtin_symbol("roc_builtins.list.len"));
    assert!(!is_hot_builtin_symbol("dict.insert"));
}

#[test]
fn every_hot_builtin_is_a_builtin() {
    for name in ["roc_builtins.dict", "roc_builtins.dict.get", "roc_builtins.dictionary"] {
        if is_hot_builtin_symbol(name) {
            assert!(is_builtin_symbol(name));
        }
    }
}

#[test]
fn prefix_test_is_exact() {
    assert!(starts_with("app \"test\"", "app"));
    assert!(!starts_with("ap", "app"));
    assert!(starts_with("", ""));
    assert!(!starts_with("apx", "app"));
}
