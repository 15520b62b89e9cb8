use kyte::ast::{Param, Ty};
use kyte::mono::{infer_type_args, mangle_name, subst_ty};
use kyte::shared::{int_range, is_integer_ty, is_numeric_ty, nearest_name, ty_name, types_compatible};

fn s(x: &str) -> String {
    x.to_string()
}

#[test]
fn ty_names_of_simple_and_nested_types() {
    assert_eq!(ty_name(&Ty::Int), "int");
    assert_eq!(ty_name(&Ty::String), "string");
    assert_eq!(ty_name(&Ty::U16), "u16");
    assert_eq!(ty_name(&Ty::Array(Box::new(Ty::Array(Box::new(Ty::Bool))))), "bool[][]");
    assert_eq!(ty_name(&Ty::Struct(s("Point"))), "Point");
    assert_eq!(ty_name(&Ty::Auto), "auto");
    assert_eq!(
        ty_name(&Ty::Fn(vec![Ty::Int, Ty::Float], Some(Box::new(Ty::Bool)))),
        "fn(int, float) -> bool"
    );
    assert_eq!(ty_name(&Ty::Fn(vec![], None)), "fn() -> void");
}

#[test]
fn integer_and_numeric_types() {
    for t in [Ty::Int, Ty::I8, Ty::I16, Ty::I32, Ty::I64, Ty::U8, Ty::U16, Ty::U32, Ty::U64] {
        assert!(is_integer_ty(&t));
        assert!(is_numeric_ty(&t));
    }
    assert!(!is_integer_ty(&Ty::Float));
    assert!(is_numeric_ty(&Ty::Float));
    assert!(!is_numeric_ty(&Ty::Bool));
    assert!(!is_numeric_ty(&Ty::Array(Box::new(Ty::Int))));
}

#[test]
fn compatibility_rules() {
    assert!(types_compatible(&Ty::Float, &Ty::Float));
    assert!(types_compatible(&Ty::U8, &Ty::Int));
    assert!(types_compatible(&Ty::Int, &Ty::I64));
    assert!(types_compatible(&Ty::I64, &Ty::Int));
    assert!(!types_compatible(&Ty::Int, &Ty::U8));
    assert!(!types_compatible(&Ty::Float, &Ty::Int));
    assert!(types_compatible(&Ty::Struct(s("A")), &Ty::Struct(s("A"))));
    assert!(!types_compatible(&Ty::Struct(s("A")), &Ty::Struct(s("B"))));
}

#[test]
fn integer_ranges() {
    assert_eq!(int_range(&Ty::I8), Some((-128, 127)));
    assert_eq!(int_range(&Ty::U8), Some((0, 255)));
    assert_eq!(int_range(&Ty::Int), Some((i64::MIN as i128, i64::MAX as i128)));
    assert_eq!(int_range(&Ty::U64), Some((0, u64::MAX as i128)));
    assert_eq!(int_range(&Ty::Float), None);
}

#[test]
fn nearest_name_picks_the_closest_within_two_edits() {
    let cands = vec![s("count"), s("counter"), s("total")];
    assert_eq!(nearest_name("coutn", &cands), Some(s("count")));
    assert_eq!(nearest_name("totl", &cands), Some(s("total")));
    assert_eq!(nearest_name("zzzzzz", &cands), None);
    // on a tie the first candidate wins
    let tie = vec![s("ab"), s("ba")];
    assert_eq!(nearest_name("aa", &tie), Some(s("ab")));
    assert_eq!(nearest_name("x", &[]), None);
}

#[test]
fn mangled_specialization_names() {
    assert_eq!(mangle_name("id", &[]), "id");
    assert_eq!(mangle_name("id", &[Ty::Int, Ty::Struct(s("Point"))]), "id__int_sPoint");
    assert_eq!(
        mangle_name("f", &[Ty::String, Ty::Array(Box::new(Ty::U8)), Ty::Enum(s("E"))]),
        "f__str_arru8_eE"
    );
    assert_eq!(mangle_name("g", &[Ty::TypeParam(s("T")), Ty::Auto]), "g__tpT_auto");
}

#[test]
fn substitution_of_type_parameters() {
    let params = vec![s("T"), s("U")];
    let args = vec![Ty::Int, Ty::Bool];
    assert_eq!(subst_ty(&Ty::TypeParam(s("U")), &params, &args), Ty::Bool);
    assert_eq!(
        subst_ty(&Ty::Array(Box::new(Ty::TypeParam(s("T")))), &params, &args),
        Ty::Array(Box::new(Ty::Int))
    );
    assert_eq!(subst_ty(&Ty::TypeParam(s("V")), &params, &args), Ty::TypeParam(s("V")));
    // a parameter without an argument becomes auto
    assert_eq!(subst_ty(&Ty::TypeParam(s("U")), &params, &[Ty::Int]), Ty::Auto);
    assert_eq!(
        subst_ty(
            &Ty::Fn(vec![Ty::TypeParam(s("T"))], Some(Box::new(Ty::TypeParam(s("U"))))),
            &params,
            &args
        ),
        Ty::Fn(vec![Ty::Int], Some(Box::new(Ty::Bool)))
    );
}

#[test]
fn inference_of_type_arguments() {
    let tps = vec![s("T"), s("U")];
    let ps = vec![
        Param { ty: Ty::TypeParam(s("T")), name: s("a") },
        Param { ty: Ty::Int, name: s("b") },
    ];
    assert_eq!(infer_type_args(&tps, &ps, &[Ty::Float, Ty::Int]), vec![Ty::Float, Ty::Auto]);
    assert_eq!(infer_type_args(&tps, &ps, &[]), vec![Ty::Auto, Ty::Auto]);
}

#[test]
fn suggestions_stop_at_distance_two() {
    // "kitten" is three edits from "sitting" and two from "sittin"
    assert_eq!(nearest_name("kitten", &["sitting".to_string()]), None);
    assert_eq!(nearest_name("kitten", &["sitting".to_string(), "sittin".to_string()]), Some("sittin".to_string()));
    assert_eq!(nearest_name("sittin", &["kitten".to_string()]), Some("kitten".to_string()));
    assert_eq!(nearest_name("abc", &["abc".to_string(), "abd".to_string()]), Some("abc".to_string()));
}
