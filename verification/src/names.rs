//! Identifiers of the generated code, derived from schema names.

use vstd::prelude::*;
use vstd::string::{StrSliceExecFns, StringExecFns};
use crate::text::{group_text, same};

verus! {

broadcast use group_text;

/// The `snake_case` form of a name, as `heck` computes it.
pub uninterp spec fn snake_case_of(name: Seq<char>) -> Seq<char>;

/// The `UpperCamelCase` form of a name, as `heck` computes it.
pub uninterp spec fn upper_camel_case_of(name: Seq<char>) -> Seq<char>;

/// The `SHOUTY_SNAKE_CASE` form of a name, as `heck` computes it.
pub uninterp spec fn shouty_snake_case_of(name: Seq<char>) -> Seq<char>;

/// `heck::ToSnakeCase::to_snake_case` on a string slice.  The conversion
/// splits the name into words and joins their lower-case forms with `_`; it
/// reads nothing but its argument, and its result is known here only by the
/// name [`snake_case_of`].
#[verifier::external_body]
pub(crate) fn snake_case(name: &str) -> (r: String)
    ensures
        r@ == snake_case_of(name@),
{
    heck::ToSnakeCase::to_snake_case(name)
}

/// `heck::ToUpperCamelCase::to_upper_camel_case` on a string slice.  The
/// conversion splits the name into words and joins their capitalised forms;
/// it reads nothing but its argument, and its result is known here only by
/// the name [`upper_camel_case_of`].
#[verifier::external_body]
pub(crate) fn upper_camel_case(name: &str) -> (r: String)
    ensures
        r@ == upper_camel_case_of(name@),
{
    heck::ToUpperCamelCase::to_upper_camel_case(name)
}

/// `heck::ToShoutySnakeCase::to_shouty_snake_case` on a string slice.  The
/// conversion splits the name into words and joins their upper-case forms
/// with `_`; it reads nothing but its argument, and its result is known here
/// only by the name [`shouty_snake_case_of`].
#[verifier::external_body]
pub(crate) fn shouty_snake_case(name: &str) -> (r: String)
    ensures
        r@ == shouty_snake_case_of(name@),
{
    heck::ToShoutySnakeCase::to_shouty_snake_case(name)
}

/// Whether `name` is a strict or reserved keyword of Rust.
pub open spec fn is_keyword(name: Seq<char>) -> bool {
    ||| name == "as"@
    ||| name == "break"@
    ||| name == "const"@
    ||| name == "continue"@
    ||| name == "crate"@
    ||| name == "else"@
    ||| name == "enum"@
    ||| name == "extern"@
    ||| name == "false"@
    ||| name == "fn"@
    ||| name == "for"@
    ||| name == "if"@
    ||| name == "impl"@
    ||| name == "in"@
    ||| name == "let"@
    ||| name == "loop"@
    ||| name == "match"@
    ||| name == "mod"@
    ||| name == "move"@
    ||| name == "mut"@
    ||| name == "pub"@
    ||| name == "ref"@
    ||| name == "return"@
    ||| name == "self"@
    ||| name == "static"@
    ||| name == "struct"@
    ||| name == "super"@
    ||| name == "trait"@
    ||| name == "true"@
    ||| name == "type"@
    ||| name == "unsafe"@
    ||| name == "use"@
    ||| name == "where"@
    ||| name == "while"@
    ||| name == "async"@
    ||| name == "await"@
    ||| name == "dyn"@
    ||| name == "abstract"@
    ||| name == "become"@
    ||| name == "box"@
    ||| name == "do"@
    ||| name == "final"@
    ||| name == "macro"@
    ||| name == "override"@
    ||| name == "priv"@
    ||| name == "typeof"@
    ||| name == "unsized"@
    ||| name == "virtual"@
    ||| name == "yield"@
    ||| name == "try"@
}

/// The Rust identifier for a schema name: a keyword gets a trailing
/// underscore, any other name is put in `snake_case`.
pub open spec fn rust_ident(name: Seq<char>) -> Seq<char> {
    if is_keyword(name) {
        name + "_"@
    } else {
        snake_case_of(name)
    }
}

/// The Rust type name for a schema name: `UpperCamelCase`, except that
/// `host` becomes `Host_`, since `Host` names the trait that hosts implement.
pub open spec fn rust_upper_camel_case(name: Seq<char>) -> Seq<char> {
    if name == "host"@ {
        "Host_"@
    } else {
        upper_camel_case_of(name)
    }
}

fn keyword(name: &str) -> (r: bool)
    ensures
        r == is_keyword(name@),
{
    same(name, "as") || same(name, "break") || same(name, "const") || same(name, "continue")
        || same(name, "crate") || same(name, "else") || same(name, "enum") || same(
        name,
        "extern",
    ) || same(name, "false") || same(name, "fn") || same(name, "for") || same(name, "if")
        || same(name, "impl") || same(name, "in") || same(name, "let") || same(name, "loop")
        || same(name, "match") || same(name, "mod") || same(name, "move") || same(name, "mut")
        || same(name, "pub") || same(name, "ref") || same(name, "return") || same(name, "self")
        || same(name, "static") || same(name, "struct") || same(name, "super") || same(
        name,
        "trait",
    ) || same(name, "true") || same(name, "type") || same(name, "unsafe") || same(name, "use")
        || same(name, "where") || same(name, "while") || same(name, "async") || same(
        name,
        "await",
    ) || same(name, "dyn") || same(name, "abstract") || same(name, "become") || same(name, "box")
        || same(name, "do") || same(name, "final") || same(name, "macro") || same(
        name,
        "override",
    ) || same(name, "priv") || same(name, "typeof") || same(name, "unsized") || same(
        name,
        "virtual",
    ) || same(name, "yield") || same(name, "try")
}

/// Translates `name` to a Rust `snake_case` identifier, escaping keywords.
pub fn to_rust_ident(name: &str) -> (r: String)
    ensures
        r@ == rust_ident(name@),
{
    if keyword(name) {
        let mut out = name.to_owned();
        out.append("_");
        out
    } else {
        snake_case(name)
    }
}

/// Translates `name` to a Rust `UpperCamelCase` identifier.
pub fn to_rust_upper_camel_case(name: &str) -> (r: String)
    ensures
        r@ == rust_upper_camel_case(name@),
{
    if same(name, "host") {
        "Host_".to_owned()
    } else {
        upper_camel_case(name)
    }
}


/// The index of the first `.` among the first `n` characters of a name.
pub open spec fn dot_index(name: Seq<char>, n: nat) -> Option<int>
    decreases n,
{
    if n == 0 {
        None
    } else {
        match dot_index(name, (n - 1) as nat) {
            Some(i) => Some(i),
            None => if name[n - 1] == '.' {
                Some(n - 1)
            } else {
                None
            },
        }
    }
}

/// The name of a function of a resource as it was declared: the schema
/// name of such a function is a prefix that names the resource, a `.`,
/// and the declared name.  A name without `.` is taken whole.
pub open spec fn declared_name(name: Seq<char>) -> Seq<char> {
    match dot_index(name, name.len()) {
        Some(i) => name.subrange(i + 1, name.len() as int),
        None => name,
    }
}

/// Where no `.` stands before the `i`-th character and the `i`-th is one,
/// the `i`-th is the first among any `n > i` characters.
pub proof fn lemma_dot_found(name: Seq<char>, i: int, n: nat)
    requires
        0 <= i < n,
        dot_index(name, i as nat) is None,
        name[i] == '.',
    ensures
        dot_index(name, n) == Some(i),
    decreases n,
{
    if n > i + 1 {
        lemma_dot_found(name, i, (n - 1) as nat);
    }
}

/// The name of a function of a resource as it was declared.
pub fn strip_resource_prefix(name: &str) -> (r: &str)
    ensures
        r@ == declared_name(name@),
{
    let n = name.unicode_len();
    let mut i: usize = 0;
    while i < n
        invariant
            i <= n,
            n == name@.len(),
            dot_index(name@, i as nat) is None,
        decreases n - i,
    {
        if name.get_char(i) == '.' {
            proof {
                lemma_dot_found(name@, i as int, n as nat);
            }
            return name.substring_char(i + 1, n);
        }
        i += 1;
    }
    name
}

} // verus!
