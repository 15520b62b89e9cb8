//! What the language server says of keywords: the hover text of each, and
//! the completion snippets it offers.
use crate::text::{chars_eq, chars_of};
use vstd::prelude::*;

verus! {
pub const DOC_FN: &'static str = "\
**fn** — declare a function\n\n\
```kyte\n\
fn add(int a, int b) -> int {\n\
    return a + b;\n\
}\n\
```";
pub const DOC_STRUCT: &'static str = "\
**struct** — user-defined data type\n\n\
```kyte\n\
struct User {\n\
    string name;\n\
    int age;\n\
}\n\
```";
pub const DOC_ENUM: &'static str = "\
**enum** — enum type declaration\n\n\
```kyte\n\
enum Color {\n\
    Red,\n\
    Green,\n\
    Blue,\n\
}\n\
```";
pub const DOC_MATCH: &'static str = "\
**match** — pattern matching\n\n\
```kyte\n\
match color {\n\
    Color.Red => { print(\"red\"); }\n\
    Color.Green => { print(\"green\"); }\n\
    _ => { print(\"other\"); }\n\
}\n\
```";
pub const DOC_INT: &'static str = "**int** — 64-bit signed integer\n\n```kyte\nint x = 42;\n```";
pub const DOC_FLOAT: &'static str = "**float** — 64-bit floating-point\n\n```kyte\nfloat pi = 3.14;\n```";
pub const DOC_STRING: &'static str = "**string** — UTF-8 string\n\n```kyte\nstring name = \"hello\";\n```";
pub const DOC_BOOL: &'static str = "**bool** — boolean\n\n```kyte\nbool flag = true;\n```";
pub const DOC_I8: &'static str = "**i8** — 8-bit signed integer (-128 .. 127)";
pub const DOC_I16: &'static str = "**i16** — 16-bit signed integer (-32768 .. 32767)";
pub const DOC_I32: &'static str = "**i32** — 32-bit signed integer";
pub const DOC_I64: &'static str = "**i64** — 64-bit signed integer (same as `int`)";
pub const DOC_U8: &'static str = "**u8** — 8-bit unsigned integer (0 .. 255)";
pub const DOC_U16: &'static str = "**u16** — 16-bit unsigned integer";
pub const DOC_U32: &'static str = "**u32** — 32-bit unsigned integer";
pub const DOC_U64: &'static str = "**u64** — 64-bit unsigned integer";
pub const DOC_VAULT: &'static str = "\
**Vault** — managed-memory declaration (heap-allocated)\n\n\
Vault variables are automatically freed at scope exit.\n\n\
```kyte\n\
Vault int buf = 1024;\n\
// automatically freed when scope ends\n\
```";
pub const DOC_YIELD: &'static str = "\
**yield** — transfer data out of an anchor\n\n\
```kyte\n\
@producer() {\n\
    yield 42;\n\
}\n\
```";
pub const DOC_PRINT: &'static str = "\
**print(...)** — print values to stdout\n\n\
```kyte\n\
print(42);\n\
print(\"hello\", x);\n\
```";
pub const DOC_KILL: &'static str = "\
**Kill** — terminate the current anchor with optional message\n\n\
```kyte\n\
Kill \"error message\";\n\
```";
pub const DOC_EXIT: &'static str = "**Exit** — exit the entire program\n\n```kyte\nExit;\n```";
pub const DOC_RETURN: &'static str = "**return** — return a value from a function\n\n```kyte\nreturn value;\n```";
pub const DOC_IF: &'static str = "\
**if** — conditional branch\n\n\
```kyte\n\
if x > 10 {\n\
    print(\"big\");\n\
} else {\n\
    print(\"small\");\n\
}\n\
```";
pub const DOC_ELSE: &'static str = "**else** — alternative branch of `if`";
pub const DOC_LOOP: &'static str = "\
**loop** — infinite loop (use `break` to exit)\n\n\
```kyte\n\
loop {\n\
    if done { break; }\n\
}\n\
```";
pub const DOC_WHILE: &'static str = "\
**while** — conditional loop\n\n\
```kyte\n\
while i < 10 {\n\
    i += 1;\n\
}\n\
```";
pub const DOC_FOR: &'static str = "\
**for** — range-based loop\n\n\
```kyte\n\
for i in 0..10 {\n\
    print(i);\n\
}\n\
```";
pub const DOC_BREAK: &'static str = "**break** — exit the innermost loop (or exit an anchor from inside a catch block)";
pub const DOC_CATCH: &'static str = "\
**catch** — handle Kill or runtime errors in an anchor\n\n\
```kyte\n\
@task(plain) {\n\
    risky_op();\n\
    Kill \"something went wrong\";\n\
} catch (string reason) {\n\
    print(reason);   // inspect the Kill message\n\
    // no break → anchor restarts automatically\n\
    // break    → anchor exits permanently\n\
    break;\n\
}\n\
```\n\
**Semantics:**\n\
- `Kill` or runtime error → always enters the catch block first\n\
- Fallthrough (no `break`) → anchor restarts from the top\n\
- `break` inside catch → anchor exits, no restart";
pub const DOC_TRUE: &'static str = "**true** — boolean literal";
pub const DOC_FALSE: &'static str = "**false** — boolean literal";
pub const DOC_AS: &'static str = "\
**as** — type casting\n\n\
```kyte\n\
float y = x as float;\n\
```";
pub const DOC_IMPORT: &'static str = "\
**import** — include another Kyte source file\n\n\
```kyte\n\
import \"util.ky\";\n\
```";
pub const DOC_FREE: &'static str = "\
~~**free(name)**~~ — **deprecated** (E033)\n\n\
Vault variables are automatically freed at scope exit.";
pub const DOC_AUTO: &'static str = "\
**auto** — infer the type from the initializer\n\n\
```kyte\n\
auto x = 42;       // int\n\
auto name = \"hi\"; // string\n\
```";
pub const DOC_ASSERT: &'static str = "\
**assert(cond)** — runtime assertion\n\n\
```kyte\n\
assert(x > 0);\n\
assert(x > 0, \"x must be positive\");\n\
```";
pub const DOC_CONST: &'static str = "**const** — immutable named constant\n\n```kyte\nconst int MAX = 100;\n```";
pub const DOC_TRAIT: &'static str = "\
**trait** — declare an abstract interface\n\n\
```kyte\n\
trait Printable {\n\
    fn to_string(self) -> string;\n\
}\n\
```";
pub const DOC_IMPL: &'static str = "\
**impl** — implement a trait for a type\n\n\
```kyte\n\
impl Printable for User {\n\
    fn to_string(self) -> string {\n\
        return self.name;\n\
    }\n\
}\n\
```";
pub const DOC_MOD: &'static str = "\
**mod** — declare a module/namespace\n\n\
```kyte\n\
mod math {\n\
    fn abs(int x) -> int { ... }\n\
}\n\
math.abs(-5);\n\
```";

/// Each keyword with its hover text.
pub open spec fn keyword_docs() -> Seq<(Seq<char>, Seq<char>)> {
    seq![
        ("fn"@, DOC_FN@),
        ("struct"@, DOC_STRUCT@),
        ("enum"@, DOC_ENUM@),
        ("match"@, DOC_MATCH@),
        ("int"@, DOC_INT@),
        ("float"@, DOC_FLOAT@),
        ("string"@, DOC_STRING@),
        ("bool"@, DOC_BOOL@),
        ("i8"@, DOC_I8@),
        ("i16"@, DOC_I16@),
        ("i32"@, DOC_I32@),
        ("i64"@, DOC_I64@),
        ("u8"@, DOC_U8@),
        ("u16"@, DOC_U16@),
        ("u32"@, DOC_U32@),
        ("u64"@, DOC_U64@),
        ("Vault"@, DOC_VAULT@),
        ("yield"@, DOC_YIELD@),
        ("print"@, DOC_PRINT@),
        ("Kill"@, DOC_KILL@),
        ("Exit"@, DOC_EXIT@),
        ("return"@, DOC_RETURN@),
        ("if"@, DOC_IF@),
        ("else"@, DOC_ELSE@),
        ("loop"@, DOC_LOOP@),
        ("while"@, DOC_WHILE@),
        ("for"@, DOC_FOR@),
        ("break"@, DOC_BREAK@),
        ("catch"@, DOC_CATCH@),
        ("true"@, DOC_TRUE@),
        ("false"@, DOC_FALSE@),
        ("as"@, DOC_AS@),
        ("import"@, DOC_IMPORT@),
        ("free"@, DOC_FREE@),
        ("auto"@, DOC_AUTO@),
        ("assert"@, DOC_ASSERT@),
        ("const"@, DOC_CONST@),
        ("trait"@, DOC_TRAIT@),
        ("impl"@, DOC_IMPL@),
        ("mod"@, DOC_MOD@),
    ]
}

/// The text paired with the first `w` in `table[k..]`.
pub open spec fn lookup(table: Seq<(Seq<char>, Seq<char>)>, w: Seq<char>, k: int) -> Option<Seq<char>>
    decreases table.len() - k,
{
    if 0 <= k < table.len() {
        if table[k].0 == w {
            Some(table[k].1)
        } else {
            lookup(table, w, k + 1)
        }
    } else {
        None
    }
}

/// The hover text of `w`, if it is a keyword.
pub open spec fn keyword_doc(w: Seq<char>) -> Option<Seq<char>> {
    lookup(keyword_docs(), w, 0)
}

/// The keywords with their hover texts.
fn keyword_doc_list() -> (r: Vec<(&'static str, &'static str)>)
    ensures
        r@.map_values(|p: (&'static str, &'static str)| (p.0@, p.1@)) == keyword_docs(),
{
    let mut v: Vec<(&'static str, &'static str)> = Vec::new();
    v.push(("fn", DOC_FN));
    v.push(("struct", DOC_STRUCT));
    v.push(("enum", DOC_ENUM));
    v.push(("match", DOC_MATCH));
    v.push(("int", DOC_INT));
    v.push(("float", DOC_FLOAT));
    v.push(("string", DOC_STRING));
    v.push(("bool", DOC_BOOL));
    v.push(("i8", DOC_I8));
    v.push(("i16", DOC_I16));
    v.push(("i32", DOC_I32));
    v.push(("i64", DOC_I64));
    v.push(("u8", DOC_U8));
    v.push(("u16", DOC_U16));
    v.push(("u32", DOC_U32));
    v.push(("u64", DOC_U64));
    v.push(("Vault", DOC_VAULT));
    v.push(("yield", DOC_YIELD));
    v.push(("print", DOC_PRINT));
    v.push(("Kill", DOC_KILL));
    v.push(("Exit", DOC_EXIT));
    v.push(("return", DOC_RETURN));
    v.push(("if", DOC_IF));
    v.push(("else", DOC_ELSE));
    v.push(("loop", DOC_LOOP));
    v.push(("while", DOC_WHILE));
    v.push(("for", DOC_FOR));
    v.push(("break", DOC_BREAK));
    v.push(("catch", DOC_CATCH));
    v.push(("true", DOC_TRUE));
    v.push(("false", DOC_FALSE));
    v.push(("as", DOC_AS));
    v.push(("import", DOC_IMPORT));
    v.push(("free", DOC_FREE));
    v.push(("auto", DOC_AUTO));
    v.push(("assert", DOC_ASSERT));
    v.push(("const", DOC_CONST));
    v.push(("trait", DOC_TRAIT));
    v.push(("impl", DOC_IMPL));
    v.push(("mod", DOC_MOD));
    proof {
        assert(v@.map_values(|p: (&'static str, &'static str)| (p.0@, p.1@)) =~= keyword_docs());
    }
    v
}

/// The hover text of keyword `w`; `None` for a word that is no keyword.
pub fn keyword_hover(w: &str) -> (r: Option<String>)
    ensures
        match r {
            Some(s) => keyword_doc(w@) == Some(s@),
            None => keyword_doc(w@) is None,
        },
{
    let table = keyword_doc_list();
    let ghost kd = keyword_docs();
    let wc = chars_of(w);
    let mut i: usize = 0;
    while i < table.len()
        invariant
            i <= table@.len(),
            wc@ == w@,
            table@.map_values(|p: (&'static str, &'static str)| (p.0@, p.1@)) == kd,
            kd == keyword_docs(),
            lookup(kd, w@, i as int) == lookup(kd, w@, 0),
        decreases table@.len() - i,
    {
        let (k, doc) = table[i];
        let kc = chars_of(k);
        proof {
            assert(kd[i as int] == (k@, doc@));
        }
        if chars_eq(kc.as_slice(), wc.as_slice()) {
            return Some(doc.to_owned());
        }
        i = i + 1;
    }
    None
}

/// What a completion item is.
#[derive(Clone, Copy, Debug, PartialEq, Eq, Structural)]
pub enum ItemKind {
    Snippet,
    Function,
    TypeParameter,
    Keyword,
    Constant,
}

/// A completion snippet for a keyword: its label, a short description, the
/// text it inserts (with tab stops), and what kind of item it is.
pub struct KeywordSnippet {
    pub label: &'static str,
    pub detail: &'static str,
    pub snippet: &'static str,
    pub kind: ItemKind,
}

/// Each keyword snippet as (label, description, text, kind).
pub open spec fn keyword_snippets() -> Seq<(Seq<char>, Seq<char>, Seq<char>, ItemKind)> {
    seq![
        ("fn"@, "Function declaration"@, "fn ${1:name}(${2:int param}) -> ${3:int} {\n\t$0\n}"@, ItemKind::Snippet),
        ("if"@, "Conditional branch"@, "if ${1:condition} {\n\t$0\n}"@, ItemKind::Snippet),
        ("if else"@, "If-else branch"@, "if ${1:condition} {\n\t$0\n} else {\n\t\n}"@, ItemKind::Snippet),
        ("for"@, "Range-based loop"@, "for ${1:i} in ${2:0}..${3:n} {\n\t$0\n}"@, ItemKind::Snippet),
        ("while"@, "Conditional loop"@, "while ${1:condition} {\n\t$0\n}"@, ItemKind::Snippet),
        ("loop"@, "Infinite loop"@, "loop {\n\t$0\n}"@, ItemKind::Snippet),
        ("match"@, "Pattern matching"@, "match ${1:expr} {\n\t${2:Pattern}.${3:Variant} => {\n\t\t$0\n\t}\n\t_ => {}\n}"@, ItemKind::Snippet),
        ("struct"@, "Struct declaration"@, "struct ${1:Name} {\n\t${2:int} ${3:field};\n}"@, ItemKind::Snippet),
        ("enum"@, "Enum declaration"@, "enum ${1:Name} {\n\t${2:Variant},\n}"@, ItemKind::Snippet),
        ("impl"@, "Trait implementation"@, "impl ${1:Trait} for ${2:Type} {\n\t$0\n}"@, ItemKind::Snippet),
        ("trait"@, "Trait declaration"@, "trait ${1:Name} {\n\t$0\n}"@, ItemKind::Snippet),
        ("mod"@, "Module declaration"@, "mod ${1:name} {\n\t$0\n}"@, ItemKind::Snippet),
        ("print"@, "Print to stdout"@, "print($0);"@, ItemKind::Function),
        ("assert"@, "Runtime assertion"@, "assert(${1:condition});"@, ItemKind::Function),
        ("int"@, "64-bit signed integer"@, "int"@, ItemKind::TypeParameter),
        ("float"@, "64-bit float"@, "float"@, ItemKind::TypeParameter),
        ("string"@, "UTF-8 string"@, "string"@, ItemKind::TypeParameter),
        ("bool"@, "Boolean"@, "bool"@, ItemKind::TypeParameter),
        ("i8"@, "8-bit signed"@, "i8"@, ItemKind::TypeParameter),
        ("i16"@, "16-bit signed"@, "i16"@, ItemKind::TypeParameter),
        ("i32"@, "32-bit signed"@, "i32"@, ItemKind::TypeParameter),
        ("i64"@, "64-bit signed"@, "i64"@, ItemKind::TypeParameter),
        ("u8"@, "8-bit unsigned"@, "u8"@, ItemKind::TypeParameter),
        ("u16"@, "16-bit unsigned"@, "u16"@, ItemKind::TypeParameter),
        ("u32"@, "32-bit unsigned"@, "u32"@, ItemKind::TypeParameter),
        ("u64"@, "64-bit unsigned"@, "u64"@, ItemKind::TypeParameter),
        ("auto"@, "Type inference"@, "auto"@, ItemKind::Keyword),
        ("Vault"@, "Managed heap memory"@, "Vault"@, ItemKind::Keyword),
        ("return"@, "Return value"@, "return $0;"@, ItemKind::Keyword),
        ("break"@, "Exit loop"@, "break;"@, ItemKind::Keyword),
        ("Kill"@, "Terminate anchor"@, "Kill \"${1:reason}\";"@, ItemKind::Keyword),
        ("Exit"@, "Exit program"@, "Exit;"@, ItemKind::Keyword),
        ("yield"@, "Yield from anchor"@, "yield $0;"@, ItemKind::Keyword),
        ("true"@, "Boolean true"@, "true"@, ItemKind::Constant),
        ("false"@, "Boolean false"@, "false"@, ItemKind::Constant),
        ("catch"@, "Anchor error handler"@, "catch (string ${1:reason}) {\n\t$0\n\tbreak;\n}"@, ItemKind::Keyword),
        ("emit"@, "Fire an event"@, "emit(\"${1:event}\", \"${2:payload}\");"@, ItemKind::Function),
        ("import"@, "Import source file"@, "import \"${1:file.ky}\";"@, ItemKind::Keyword),
        ("as"@, "Type cast"@, "as ${1:type}"@, ItemKind::Keyword),
        ("const"@, "Named constant"@, "const ${1:int} ${2:NAME} = $0;"@, ItemKind::Keyword),
    ]
}

/// The completion snippets for keywords, in the order they are offered.
pub fn keyword_snippet_items() -> (r: Vec<KeywordSnippet>)
    ensures
        r@.map_values(|k: KeywordSnippet| (k.label@, k.detail@, k.snippet@, k.kind)) == keyword_snippets(),
{
    let mut v: Vec<KeywordSnippet> = Vec::new();
    v.push(KeywordSnippet { label: "fn", detail: "Function declaration", snippet: "fn ${1:name}(${2:int param}) -> ${3:int} {\n\t$0\n}", kind: ItemKind::Snippet });
    v.push(KeywordSnippet { label: "if", detail: "Conditional branch", snippet: "if ${1:condition} {\n\t$0\n}", kind: ItemKind::Snippet });
    v.push(KeywordSnippet { label: "if else", detail: "If-else branch", snippet: "if ${1:condition} {\n\t$0\n} else {\n\t\n}", kind: ItemKind::Snippet });
    v.push(KeywordSnippet { label: "for", detail: "Range-based loop", snippet: "for ${1:i} in ${2:0}..${3:n} {\n\t$0\n}", kind: ItemKind::Snippet });
    v.push(KeywordSnippet { label: "while", detail: "Conditional loop", snippet: "while ${1:condition} {\n\t$0\n}", kind: ItemKind::Snippet });
    v.push(KeywordSnippet { label: "loop", detail: "Infinite loop", snippet: "loop {\n\t$0\n}", kind: ItemKind::Snippet });
    v.push(KeywordSnippet { label: "match", detail: "Pattern matching", snippet: "match ${1:expr} {\n\t${2:Pattern}.${3:Variant} => {\n\t\t$0\n\t}\n\t_ => {}\n}", kind: ItemKind::Snippet });
    v.push(KeywordSnippet { label: "struct", detail: "Struct declaration", snippet: "struct ${1:Name} {\n\t${2:int} ${3:field};\n}", kind: ItemKind::Snippet });
    v.push(KeywordSnippet { label: "enum", detail: "Enum declaration", snippet: "enum ${1:Name} {\n\t${2:Variant},\n}", kind: ItemKind::Snippet });
    v.push(KeywordSnippet { label: "impl", detail: "Trait implementation", snippet: "impl ${1:Trait} for ${2:Type} {\n\t$0\n}", kind: ItemKind::Snippet });
    v.push(KeywordSnippet { label: "trait", detail: "Trait declaration", snippet: "trait ${1:Name} {\n\t$0\n}", kind: ItemKind::Snippet });
    v.push(KeywordSnippet { label: "mod", detail: "Module declaration", snippet: "mod ${1:name} {\n\t$0\n}", kind: ItemKind::Snippet });
    v.push(KeywordSnippet { label: "print", detail: "Print to stdout", snippet: "print($0);", kind: ItemKind::Function });
    v.push(KeywordSnippet { label: "assert", detail: "Runtime assertion", snippet: "assert(${1:condition});", kind: ItemKind::Function });
    v.push(KeywordSnippet { label: "int", detail: "64-bit signed integer", snippet: "int", kind: ItemKind::TypeParameter });
    v.push(KeywordSnippet { label: "float", detail: "64-bit float", snippet: "float", kind: ItemKind::TypeParameter });
    v.push(KeywordSnippet { label: "string", detail: "UTF-8 string", snippet: "string", kind: ItemKind::TypeParameter });
    v.push(KeywordSnippet { label: "bool", detail: "Boolean", snippet: "bool", kind: ItemKind::TypeParameter });
    v.push(KeywordSnippet { label: "i8", detail: "8-bit signed", snippet: "i8", kind: ItemKind::TypeParameter });
    v.push(KeywordSnippet { label: "i16", detail: "16-bit signed", snippet: "i16", kind: ItemKind::TypeParameter });
    v.push(KeywordSnippet { label: "i32", detail: "32-bit signed", snippet: "i32", kind: ItemKind::TypeParameter });
    v.push(KeywordSnippet { label: "i64", detail: "64-bit signed", snippet: "i64", kind: ItemKind::TypeParameter });
    v.push(KeywordSnippet { label: "u8", detail: "8-bit unsigned", snippet: "u8", kind: ItemKind::TypeParameter });
    v.push(KeywordSnippet { label: "u16", detail: "16-bit unsigned", snippet: "u16", kind: ItemKind::TypeParameter });
    v.push(KeywordSnippet { label: "u32", detail: "32-bit unsigned", snippet: "u32", kind: ItemKind::TypeParameter });
    v.push(KeywordSnippet { label: "u64", detail: "64-bit unsigned", snippet: "u64", kind: ItemKind::TypeParameter });
    v.push(KeywordSnippet { label: "auto", detail: "Type inference", snippet: "auto", kind: ItemKind::Keyword });
    v.push(KeywordSnippet { label: "Vault", detail: "Managed heap memory", snippet: "Vault", kind: ItemKind::Keyword });
    v.push(KeywordSnippet { label: "return", detail: "Return value", snippet: "return $0;", kind: ItemKind::Keyword });
    v.push(KeywordSnippet { label: "break", detail: "Exit loop", snippet: "break;", kind: ItemKind::Keyword });
    v.push(KeywordSnippet { label: "Kill", detail: "Terminate anchor", snippet: "Kill \"${1:reason}\";", kind: ItemKind::Keyword });
    v.push(KeywordSnippet { label: "Exit", detail: "Exit program", snippet: "Exit;", kind: ItemKind::Keyword });
    v.push(KeywordSnippet { label: "yield", detail: "Yield from anchor", snippet: "yield $0;", kind: ItemKind::Keyword });
    v.push(KeywordSnippet { label: "true", detail: "Boolean true", snippet: "true", kind: ItemKind::Constant });
    v.push(KeywordSnippet { label: "false", detail: "Boolean false", snippet: "false", kind: ItemKind::Constant });
    v.push(KeywordSnippet { label: "catch", detail: "Anchor error handler", snippet: "catch (string ${1:reason}) {\n\t$0\n\tbreak;\n}", kind: ItemKind::Keyword });
    v.push(KeywordSnippet { label: "emit", detail: "Fire an event", snippet: "emit(\"${1:event}\", \"${2:payload}\");", kind: ItemKind::Function });
    v.push(KeywordSnippet { label: "import", detail: "Import source file", snippet: "import \"${1:file.ky}\";", kind: ItemKind::Keyword });
    v.push(KeywordSnippet { label: "as", detail: "Type cast", snippet: "as ${1:type}", kind: ItemKind::Keyword });
    v.push(KeywordSnippet { label: "const", detail: "Named constant", snippet: "const ${1:int} ${2:NAME} = $0;", kind: ItemKind::Keyword });
    proof {
        assert(v@.map_values(|k: KeywordSnippet| (k.label@, k.detail@, k.snippet@, k.kind)) =~= keyword_snippets());
    }
    v
}

} // verus!
