use jsonq::parsers::{parse_args_str, split_args_str, Predicate};
use jsonq::path::{cast_path, get, pick, resolve};
use jsonq::runner::{compare, element_matches, every, filter, find, length, same_type, some};
use jsonq::value::{Json, Value};
use std::str::FromStr;

fn pred(s: &str) -> Predicate {
    let parts = split_args_str(s).unwrap();
    let number = f64::from_str(&parts.text).ok().map(f64::to_bits);
    parse_args_str(s, number).unwrap()
}

fn num(x: f64) -> Json {
    Json::Number(x.to_bits())
}

fn text(s: &str) -> Json {
    Json::Str(String::from(s))
}

fn obj(members: Vec<(&str, Json)>) -> Json {
    Json::Object(members.into_iter().map(|(k, v)| (String::from(k), v)).collect())
}

fn sample() -> Vec<Json> {
    vec![obj(vec![("a", num(1.0))]), obj(vec![("a", num(2.0))]), obj(vec![("a", num(1.0))])]
}

#[test]
fn scenario_filter_some_every_find_length() {
    let v = sample();
    let p = pred("a,==,n:1");
    let f = filter(&v, &p);
    assert_eq!(f.len(), 2);
    assert_eq!(*f[0], obj(vec![("a", num(1.0))]));
    assert_eq!(*f[1], obj(vec![("a", num(1.0))]));
    assert!(some(&v, &p));
    assert!(!every(&v, &p));
    let found = find(&v, &p).unwrap();
    assert!(std::ptr::eq(found, &v[0]));
    assert_eq!(length(&v), 3);
}

#[test]
fn scenario_self_path() {
    let v = vec![num(5.0), num(6.0), num(5.0)];
    let f = filter(&v, &pred("$self,==,n:5"));
    assert_eq!(f.len(), 2);
    assert_eq!(*f[0], num(5.0));
    assert_eq!(*f[1], num(5.0));
}

#[test]
fn scenario_missing_path() {
    let v = vec![obj(vec![("a", num(1.0))])];
    let p = pred("missing.field,==,s:x");
    assert!(filter(&v, &p).is_empty());
    assert!(!some(&v, &p));
    assert!(find(&v, &p).is_none());
    assert!(!every(&v, &p));
}

#[test]
fn empty_array() {
    let v: Vec<Json> = Vec::new();
    let p = pred("a,==,n:1");
    assert!(every(&v, &p));
    assert!(!some(&v, &p));
    assert!(filter(&v, &p).is_empty());
    assert!(find(&v, &p).is_none());
    assert_eq!(length(&v), 0);
}

#[test]
fn length_ignores_predicate_content() {
    let v = vec![Json::Null, text("x"), Json::Bool(true), Json::Array(Vec::new())];
    assert_eq!(length(&v), 4);
}

#[test]
fn type_mismatch_never_matches() {
    let v = vec![obj(vec![("a", text("1"))]), obj(vec![("a", Json::Bool(true))])];
    assert!(!some(&v, &pred("a,==,n:1")));
    assert!(!some(&v, &pred("a,!=,n:1")));
    assert!(element_matches(&v[0], &pred("a,!=,s:true")));
    assert!(!element_matches(&v[1], &pred("a,!=,s:true")));
    assert!(element_matches(&v[1], &pred("a,==,b:true")));
}

#[test]
fn not_equals_operator() {
    let v = sample();
    let f = filter(&v, &pred("a,!=,n:1"));
    assert_eq!(f.len(), 1);
    assert_eq!(*f[0], obj(vec![("a", num(2.0))]));
}

#[test]
fn unknown_operator_denies() {
    let v = sample();
    assert!(filter(&v, &pred("a,<,n:2")).is_empty());
    assert!(!some(&v, &pred("a,=,n:1")));
}

#[test]
fn unknown_tag_never_matches() {
    let v = sample();
    assert!(!some(&v, &pred("a,==,q:1")));
    assert!(!some(&v, &pred("a,!=,q:1")));
}

#[test]
fn null_array_and_object_never_match() {
    let v = vec![obj(vec![("a", Json::Null)]), obj(vec![("a", Json::Array(Vec::new()))])];
    assert!(!some(&v, &pred("a,!=,s:x")));
    assert!(!some(&v, &pred("a,!=,n:0")));
}

#[test]
fn numbers_compare_as_floats() {
    let v = vec![num(-0.0), num(0.5)];
    let f = filter(&v, &pred("$self,==,n:0"));
    assert_eq!(f.len(), 1);
    assert!(filter(&v, &pred("$self,==,n:NaN")).is_empty());
    assert_eq!(filter(&v, &pred("$self,!=,n:NaN")).len(), 2);
    assert_eq!(filter(&v, &pred("$self,==,n:5e-1")).len(), 1);
}

#[test]
fn strings_compare_exactly() {
    let v = vec![obj(vec![("n", text("Bob"))]), obj(vec![("n", text("bob"))])];
    let f = filter(&v, &pred("n,==,s:bob"));
    assert_eq!(f.len(), 1);
    assert!(std::ptr::eq(f[0], &v[1]));
}

#[test]
fn nested_paths_and_indexes() {
    let doc = obj(vec![("user", obj(vec![("tags", Json::Array(vec![text("x"), text("y")]))]))]);
    assert_eq!(resolve(&doc, "/user/tags/1"), Some(&text("y")));
    assert_eq!(resolve(&doc, "/user/tags/2"), None);
    assert_eq!(resolve(&doc, "/user/tags/01"), None);
    assert_eq!(resolve(&doc, "/user/tags/+1"), None);
    assert_eq!(resolve(&doc, "/user/tags/"), None);
    assert_eq!(resolve(&doc, "/user/tags/0/x"), None);
    assert_eq!(resolve(&doc, ""), Some(&doc));
    assert_eq!(resolve(&doc, "user"), None);
    assert_eq!(get(&doc, "user.tags.0"), Some(&text("x")));
    assert_eq!(get(&doc, "$self"), None);
}

#[test]
fn pointer_escapes() {
    let doc = obj(vec![("a/b", num(1.0)), ("c~d", num(2.0))]);
    assert_eq!(resolve(&doc, "/a~1b"), Some(&num(1.0)));
    assert_eq!(resolve(&doc, "/c~0d"), Some(&num(2.0)));
    assert_eq!(resolve(&doc, "/a/b"), None);
}

#[test]
fn cast_path_self_and_pointer() {
    let doc = obj(vec![("a", num(3.0))]);
    assert_eq!(cast_path(&doc, "$self"), Some(&doc));
    assert_eq!(cast_path(&doc, "/a"), Some(&num(3.0)));
    assert_eq!(cast_path(&doc, "/b"), None);
}

#[test]
fn pick_members() {
    let doc = obj(vec![("a", num(1.0)), ("b", text("x"))]);
    let keys = vec![String::from("b"), String::from("z"), String::from("a")];
    let r = pick(&doc, &keys);
    assert_eq!(r, vec![Some(&text("x")), None, Some(&num(1.0))]);
    let scalar = num(1.0);
    let r = pick(&scalar, &keys);
    assert_eq!(r, vec![None, None, None]);
}

#[test]
fn compare_and_type_check() {
    assert!(compare(&Value::Bool(true), &Value::Bool(true), "=="));
    assert!(!compare(&Value::Bool(true), &Value::Bool(true), "!="));
    assert!(!compare(&Value::Bool(true), &Value::Bool(true), "==="));
    assert!(same_type(&text("a"), &Value::Str(String::new())));
    assert!(!same_type(&num(1.0), &Value::Str(String::new())));
    assert!(!same_type(&Json::Null, &Value::Unknown));
}
