//! Tests of the constant-pool intern context.

use abcgen::codegen::assembler::intern::{InternContext, Multiname, Namespace};
use abcgen::codegen::context::{ConstantPoolContext, FunctionGenContext};
use abcgen::codegen::LabelIndex;

#[test]
fn intern_string_is_idempotent() {
    // Interning the same value twice yields the same index; distinct values
    // get distinct indices in first-seen order starting at 0.
    let mut context = InternContext::new();
    let a = context.intern_string("alpha");
    let b = context.intern_string("beta");
    let a_again = context.intern_string("alpha");
    assert_eq!(a, 0);
    assert_eq!(b, 1);
    assert_eq!(a_again, 0);
    assert_eq!(
        context.const_pool.strings,
        vec!["alpha".to_string(), "beta".to_string()]
    );
}

#[test]
fn intern_namespace_and_multiname() {
    let mut context = InternContext::new();
    let e = context.intern_string("");
    let ns = context.intern_namespace(&Namespace::Package(e));
    let ns_again = context.intern_namespace(&Namespace::Package(e));
    assert_eq!(ns, 0);
    assert_eq!(ns_again, 0);
    let name = context.intern_string("x");
    let mn = context.intern_multiname(&Multiname::QName { namespace: ns, name });
    assert_eq!(mn, 0);
    assert_eq!(context.const_pool.namespaces, vec![Namespace::Package(0)]);
    assert_eq!(
        context.const_pool.multinames,
        vec![Multiname::QName { namespace: 0, name: 1 }]
    );
}

#[test]
fn empty_namespaced_qname_builds_three_levels() {
    // The convenience interns the empty string, a package namespace over it,
    // the name, and the combined qualified name.
    let mut context = InternContext::new();
    let q = context.empty_namespaced_qname("point");
    assert_eq!(q, 0);
    assert_eq!(
        context.const_pool.strings,
        vec!["".to_string(), "point".to_string()]
    );
    assert_eq!(context.const_pool.namespaces, vec![Namespace::Package(0)]);
    assert_eq!(
        context.const_pool.multinames,
        vec![Multiname::QName { namespace: 0, name: 1 }]
    );
    // A second build of the same name reuses every entry.
    let q_again = context.empty_namespaced_qname("point");
    assert_eq!(q_again, 0);
    assert_eq!(context.const_pool.strings.len(), 2);
    assert_eq!(context.const_pool.multinames.len(), 1);
}

#[test]
fn add_string_deduplicates() {
    let mut context = ConstantPoolContext::default();
    let a = context.add_string(&"v".to_string());
    let b = context.add_string(&"w".to_string());
    let a_again = context.add_string(&"v".to_string());
    assert_eq!((a, b, a_again), (0, 1, 0));
    assert_eq!(context.const_pool.strings, vec!["v".to_string(), "w".to_string()]);
}

#[test]
fn labels_are_issued_monotonically() {
    let mut context = FunctionGenContext::new();
    let l0 = context.get_next_label();
    let l1 = context.get_next_label();
    assert_eq!(l0, LabelIndex(0));
    assert_eq!(l1, LabelIndex(1));
}

#[test]
fn get_or_create_label_reuses_names() {
    let mut context = FunctionGenContext::default();
    let a = context.get_or_create_label("loop_head");
    let b = context.get_or_create_label("loop_end");
    let a_again = context.get_or_create_label("loop_head");
    assert_eq!(a, LabelIndex(0));
    assert_eq!(b, LabelIndex(1));
    assert_eq!(a_again, LabelIndex(0));
    assert_eq!(context.label_counter, 2);
}
