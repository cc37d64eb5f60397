use minicc::compile::compile;
use minicc::error::ErrorKind;
use minicc::holders::{align_to, LocalHolder};
use minicc::tokenizer::{TokenKind, TokenizerContext};
use minicc::types::{Node, NodeKind, Type, Variable};
use minicc::typing::make_node;

fn listing(src: &str) -> String {
    String::from_utf8(compile(src).unwrap()).unwrap()
}

#[test]
fn return_zero_listing() {
    let expected = ".intel_syntax noprefix\n.data\n.text\n.global main\nmain:\n\tpush rbp\n\tmov rbp, rsp\n\tsub rsp, 0\n\tpush 0\n\tpop rax\n\tmov rsp, rbp\n\tpop rbp\n\tret\n\tpop rax\n\tmov rsp, rbp\n\tpop rbp\n\tret\n";
    assert_eq!(listing("int main() { return 0; }"), expected);
}

#[test]
fn arithmetic_on_locals() {
    let out = listing("int main() { int a; int b; a=3; b=4; return a*b-2; }");
    assert!(out.contains("\tsub rsp, 16\n"));
    assert!(out.contains("\tmov rax, rbp\n\tsub rax, 8\n\tpush rax\n"));
    assert!(out.contains("\tmov rax, rbp\n\tsub rax, 16\n\tpush rax\n"));
    assert!(out.contains("\timul rax, rdi\n"));
    assert!(out.contains("\tpush 2\n"));
    assert!(out.contains("\tsub rax, rdi\n"));
}

#[test]
fn for_loop_sum() {
    let out = listing("int main() { int i; int s; s=0; for (i=1; i<=10; i=i+1) s=s+i; return s; }");
    assert!(out.contains(".L.begin.0:\n"));
    assert!(out.contains("\tsetle al\n\tmovzx rax, al\n"));
    assert!(out.contains("\tje .L.end.0\n"));
    assert!(out.contains("\tjmp .L.begin.0\n.L.end.0:\n"));
}

#[test]
fn array_elements() {
    let out = listing("int main() { int a[3]; a[0]=1; a[1]=2; a[2]=4; return a[0]+a[1]+a[2]; }");
    assert!(out.contains("\tsub rsp, 24\n"));
    assert!(out.contains("\timul rdi, 8\n"));
    assert!(out.contains("\tmov [rax], rdi\n"));
}

#[test]
fn nested_calls() {
    let out = listing("int add(int x, int y) { return x+y; } int main() { return add(3, add(4,5)); }");
    assert!(out.contains(".global add\nadd:\n"));
    assert!(out.contains("\tmov [rbp-8], rdi\n\tmov [rbp-16], rsi\n"));
    assert_eq!(out.matches("\tcall add\n").count(), 4);
    assert!(out.contains("\tpop rsi\n\tpop rdi\n"));
}

#[test]
fn pointer_store() {
    let out = listing("int main() { int x; int *p; x=17; p=&x; *p = *p + 1; return x; }");
    assert!(out.contains("\tsub rsp, 16\n"));
    assert!(out.contains("\tmov rax, [rax]\n"));
}

#[test]
fn same_input_same_output() {
    let src = "int g; int f(int a) { if (a) return 1; else return 2; } int main() { g = f(1); while (g < 3) g = g + 1; return g; }";
    assert_eq!(compile(src).unwrap(), compile(src).unwrap());
}

#[test]
fn sizeof_is_size_of_type() {
    let out = listing("int main() { char c; int *p; int a[4]; return sizeof(c) + sizeof(p) + sizeof(a) + sizeof c; }");
    assert!(out.contains("\tpush 1\n"));
    assert!(out.contains("\tpush 8\n"));
    assert!(out.contains("\tpush 32\n"));
}

#[test]
fn address_of_deref_is_pointer() {
    let a = listing("int main() { int x; int *p; p = &x; return &*p; }");
    let b = listing("int main() { int x; int *p; p = &x; return p; }");
    assert_eq!(a, b);
}

#[test]
fn index_is_deref_of_sum() {
    let a = listing("int main() { int a[2]; int i; i = 1; return a[i]; }");
    let b = listing("int main() { int a[2]; int i; i = 1; return *(a+i); }");
    assert_eq!(a, b);
}

#[test]
fn negation_is_subtraction_from_zero() {
    let a = listing("int main() { int x; x = 3; return -x; }");
    let b = listing("int main() { int x; x = 3; return 0-x; }");
    assert_eq!(a, b);
}

#[test]
fn greater_is_swapped_less() {
    let a = listing("int main() { int a; int b; a = 1; b = 2; return a > b; }");
    let b = listing("int main() { int a; int b; a = 1; b = 2; return b < a; }");
    assert_eq!(a, b);
    let c = listing("int main() { int a; int b; a = 1; b = 2; return a >= b; }");
    let d = listing("int main() { int a; int b; a = 1; b = 2; return b <= a; }");
    assert_eq!(c, d);
}

#[test]
fn empty_for_header() {
    let out = listing("int main() { for (;;) return 3; }");
    assert!(out.contains(".L.begin.0:\n"));
    assert!(!out.contains("\tje "));
    assert!(out.contains("\tjmp .L.begin.0\n.L.end.0:\n"));
}

#[test]
fn calls_with_zero_and_six_arguments_are_aligned() {
    let out = listing("int main() { foo(); bar(1, 2, 3, 4, 5, 6); return 0; }");
    assert_eq!(out.matches("\tand rax, 15\n").count(), 2);
    assert!(out.contains("\tjnz .L.call.0\n"));
    assert!(out.contains("\tjnz .L.call.1\n"));
    assert!(out.contains("\tpop r9\n\tpop r8\n\tpop rcx\n\tpop rdx\n\tpop rsi\n\tpop rdi\n"));
}

#[test]
fn assigning_to_array_is_rejected() {
    let err = compile("int main() { int a[2]; int b[2]; a = b; return 0; }").unwrap_err();
    assert_eq!(err.kind, ErrorKind::AssignToArray);
}

#[test]
fn undefined_variable_is_reported_at_its_offset() {
    let src = "int main() { return x; }";
    let err = compile(src).unwrap_err();
    assert_eq!(err.kind, ErrorKind::UndefinedVariable(b"x".to_vec()));
    assert_eq!(err.index, 20);
    let text = String::from_utf8(err.render(src)).unwrap();
    let mut lines = text.lines();
    assert_eq!(lines.next().unwrap(), src);
    let caret = lines.next().unwrap();
    assert_eq!(caret.find('^'), Some(20));
}

#[test]
fn malformed_inputs_are_rejected() {
    assert_eq!(compile("1++").unwrap_err().kind, ErrorKind::ExpectedKeyword(minicc::tokenizer::Keyword::Int));
    let err = compile("int main() { int a; a=; }").unwrap_err();
    assert_eq!(err.kind, ErrorKind::ExpectedNumber);
    assert_eq!(err.index, 22);
    assert!(compile("int main() { return }").is_err());
    assert_eq!(compile("int main() { return 1 @ 2; }").unwrap_err().kind, ErrorKind::Tokenize);
}

#[test]
fn pointer_on_right_of_minus_is_rejected() {
    let err = compile("int main() { int *p; int x; x = 1 - p; return 0; }").unwrap_err();
    assert_eq!(err.kind, ErrorKind::PointerOperand);
}

#[test]
fn deref_of_int_is_rejected() {
    let err = compile("int main() { int x; return *x; }").unwrap_err();
    assert_eq!(err.kind, ErrorKind::NotDereferenceable);
}

#[test]
fn too_many_parameters_are_rejected() {
    let err = compile("int f(int a, int b, int c, int d, int e, int f, int g) { return 0; }").unwrap_err();
    assert_eq!(err.kind, ErrorKind::TooManyArgs);
}

#[test]
fn char_parameter_uses_byte_register() {
    let out = listing("int f(char c, int x) { return c; } int main() { return f(1, 2); }");
    assert!(out.contains("\tmov [rbp-1], dil\n\tmov [rbp-9], rsi\n"));
    assert!(out.contains("\tmovsx rax, byte ptr [rax]\n"));
}

#[test]
fn globals_and_string_literals_in_data_section() {
    let out = listing("int g[4]; int main() { char *s; s = \"abc\"; return g[1]; }");
    assert!(out.contains(".data\ng:\n\t.zero 32\n.L.data.1:\n\t.zero 4\n.text\n"));
    assert!(out.contains("\tpush offset .L.data.1\n"));
    assert!(out.contains("\tpush offset g\n"));
}

#[test]
fn locals_sit_at_running_sums() {
    let mut h = LocalHolder::new();
    let a = h.new_var(&b"a".to_vec(), Type::Char).unwrap();
    let b = h.new_var(&b"b".to_vec(), Type::Int).unwrap();
    let c = h.new_var(&b"c".to_vec(), Type::Array(Box::new(Type::Char), 3)).unwrap();
    assert_eq!((a.offset, b.offset, c.offset), (1, 9, 12));
    assert_eq!(h.total_variable_size(), 12);
    assert_eq!(h.stack_size(), 16);
    assert!(h.find(&b"b".to_vec()).is_some());
    assert!(h.find(&b"z".to_vec()).is_none());
}

#[test]
fn align_to_rounds_up() {
    assert_eq!(align_to(0, 8), 0);
    assert_eq!(align_to(1, 8), 8);
    assert_eq!(align_to(8, 8), 8);
    assert_eq!(align_to(17, 8), 24);
}

#[test]
fn type_sizes() {
    assert_eq!(Type::Char.size(), 1);
    assert_eq!(Type::Int.size(), 8);
    assert_eq!(Type::Pointer(Box::new(Type::Char)).size(), 8);
    assert_eq!(Type::Array(Box::new(Type::Array(Box::new(Type::Int), 3)), 2).size(), 48);
}

#[test]
fn every_error_kind_has_an_input() {
    let kind = |src: &str| compile(src).unwrap_err().kind;
    assert_eq!(kind("int main( { return 0; }"), ErrorKind::ExpectedKeyword(minicc::tokenizer::Keyword::Int));
    assert_eq!(kind("int main() { return 0 }"), ErrorKind::ExpectedSign(b";".to_vec()));
    assert_eq!(kind("int 1;"), ErrorKind::ExpectedIdent);
    assert_eq!(kind("int main() { 1 = 2; return 0; }"), ErrorKind::NotLvalue);
    assert_eq!(kind("int main() { return &1; }"), ErrorKind::NotLvalue);
    assert_eq!(kind("int f(int a[2]) { return 0; }"), ErrorKind::ParamSize);
    assert_eq!(kind("int main() { return f(1, 2, 3, 4, 5, 6, 7); }"), ErrorKind::TooManyArgs);
    assert_eq!(kind("int main() { int a[4294967295][2]; return 0; }"), ErrorKind::TooLarge);
    assert_eq!(kind("int main() { int *p; int *q; return 1 + p + q; }"), ErrorKind::PointerOperand);
}

#[test]
fn address_of_untyped_node_has_no_type() {
    let v = Variable { name: b"v".to_vec(), ty: Type::Int, is_local: true, offset: 8, content: None };
    let untyped = Node { kind: NodeKind::Variable(v), ty: None };
    let r = make_node(NodeKind::Addr(Box::new(untyped)));
    assert_eq!(r.unwrap_err(), ErrorKind::NoType);
}

#[test]
fn pointer_plus_int_is_canonicalized() {
    let a = listing("int main() { int a[2]; return *(1 + a); }");
    let b = listing("int main() { int a[2]; return *(a + 1); }");
    assert_eq!(a, b);
}

#[test]
fn consume_matches_exact_prefix() {
    let mut ctx = TokenizerContext::new("+-");
    assert!(ctx.consume("-").is_none());
    let t = ctx.consume("+").unwrap();
    assert_eq!(t.kind, TokenKind::Sign(b"+".to_vec()));
    assert_eq!(t.index, 0);
    assert_eq!(ctx.rest_input(), b"-".to_vec());
}
