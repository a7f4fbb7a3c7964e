use linux_rtfm::entry::{
    check_signature, entry, extract_statics, is_bottom, is_unit, Error, Output, Signature, Stmt,
};

fn plain(output: Output) -> Signature {
    Signature {
        inherited: true,
        constness: false,
        asyncness: false,
        abi: false,
        unsafety: false,
        generics: 0,
        where_clause: false,
        variadic: false,
        inputs: 0,
        output,
    }
}

#[test]
fn the_entry_point_returns_nothing_or_never() {
    assert_eq!(entry(true, &plain(Output::Never), &vec![]), Ok(0));
    assert_eq!(entry(true, &plain(Output::Unit), &vec![]), Ok(0));
    assert_eq!(entry(true, &plain(Output::Default), &vec![]), Ok(0));
    assert_eq!(entry(true, &plain(Output::Other), &vec![]), Err(Error::Signature));
    assert!(is_bottom(Output::Never));
    assert!(!is_bottom(Output::Unit));
    assert!(is_unit(Output::Unit));
    assert!(is_unit(Output::Default));
    assert!(!is_unit(Output::Never));
    assert!(!is_unit(Output::Other));
}

#[test]
fn the_attribute_takes_no_arguments() {
    assert_eq!(entry(false, &plain(Output::Never), &vec![]), Err(Error::Arguments));
    // the arguments are looked at first
    assert_eq!(entry(false, &plain(Output::Other), &vec![]), Err(Error::Arguments));
}

#[test]
fn the_entry_point_is_a_plain_function() {
    let ok = plain(Output::Never);
    assert!(check_signature(&ok));
    let broken = [
        Signature { inherited: false, ..ok },
        Signature { constness: true, ..ok },
        Signature { asyncness: true, ..ok },
        Signature { abi: true, ..ok },
        Signature { unsafety: true, ..ok },
        Signature { generics: 1, ..ok },
        Signature { where_clause: true, ..ok },
        Signature { variadic: true, ..ok },
    ];
    for sig in broken {
        assert!(!check_signature(&sig));
        assert_eq!(entry(true, &sig, &vec![]), Err(Error::Signature));
    }
    let takes = Signature { inputs: 1, ..ok };
    assert!(check_signature(&takes));
    assert_eq!(entry(true, &takes, &vec![]), Err(Error::Signature));
}

#[test]
fn leading_static_mut_items_are_extracted() {
    use_statics(&[], 0);
    use_statics(&[Stmt::Other], 0);
    use_statics(&[Stmt::StaticMut], 1);
    use_statics(&[Stmt::StaticMut, Stmt::StaticMut, Stmt::Other, Stmt::StaticMut], 2);
    use_statics(&[Stmt::StaticMut, Stmt::Static, Stmt::StaticMut], 1);
    use_statics(&[Stmt::Static, Stmt::StaticMut], 0);
    assert_eq!(
        entry(true, &plain(Output::Never), &vec![Stmt::StaticMut, Stmt::StaticMut, Stmt::Other]),
        Ok(2)
    );
}

fn use_statics(stmts: &[Stmt], expected: usize) {
    assert_eq!(extract_statics(&stmts.to_vec()), expected);
}
