//! What the server is configured with.

use vstd::prelude::*;
use vstd::string::*;

verus! {

/// The settings of a server.
#[derive(Debug, Clone)]
pub struct ServerConfig {
    pub keywords: Vec<String>,
}

/// The keywords from `abstract` to `const`.
pub open spec fn keywords_a_to_const() -> Seq<Seq<char>> {
    seq![
        "abstract"@,
        "assert"@,
        "boolean"@,
        "break"@,
        "byte"@,
        "case"@,
        "catch"@,
        "char"@,
        "class"@,
        "const"@,
    ]
}

/// The keywords from `continue` to `float`.
pub open spec fn keywords_continue_to_float() -> Seq<Seq<char>> {
    seq![
        "continue"@,
        "default"@,
        "do"@,
        "double"@,
        "else"@,
        "enum"@,
        "extends"@,
        "final"@,
        "finally"@,
        "float"@,
    ]
}

/// The keywords from `for` to `native`.
pub open spec fn keywords_for_to_native() -> Seq<Seq<char>> {
    seq![
        "for"@,
        "goto"@,
        "if"@,
        "implements"@,
        "import"@,
        "instanceof"@,
        "int"@,
        "interface"@,
        "long"@,
        "native"@,
    ]
}

/// The keywords from `new` to `super`.
pub open spec fn keywords_new_to_super() -> Seq<Seq<char>> {
    seq![
        "new"@,
        "package"@,
        "private"@,
        "protected"@,
        "public"@,
        "return"@,
        "short"@,
        "static"@,
        "strictfp"@,
        "super"@,
    ]
}

/// The keywords from `switch` to `while`.
pub open spec fn keywords_switch_to_while() -> Seq<Seq<char>> {
    seq![
        "switch"@,
        "synchronized"@,
        "this"@,
        "throw"@,
        "throws"@,
        "transient"@,
        "try"@,
        "void"@,
        "volatile"@,
        "while"@,
    ]
}

/// The keywords that every version of the language has.
pub open spec fn base_keywords() -> Seq<Seq<char>> {
    keywords_a_to_const() + keywords_continue_to_float() + keywords_for_to_native() + keywords_new_to_super() + keywords_switch_to_while()
}

/// The keywords of the language in the version `version`: the base set;
/// from version 10 on `var`; from 14 on `yield`; from 16 on `record`,
/// `sealed`, `non-sealed` and `permits`.
pub open spec fn keywords_of(version: u16) -> Seq<Seq<char>> {
    base_keywords() + (if version >= 10 {
        seq!["var"@]
    } else {
        Seq::empty()
    }) + (if version >= 14 {
        seq!["yield"@]
    } else {
        Seq::empty()
    }) + (if version >= 16 {
        seq!["record"@, "sealed"@, "non-sealed"@, "permits"@]
    } else {
        Seq::empty()
    })
}

/// Adds `word` to `words`.
fn push_word(words: &mut Vec<String>, word: &str)
    ensures
        final(words).deep_view() == old(words).deep_view().push(word@),
{
    let ghost before = words.deep_view();
    words.push(word.to_owned());
    assert(words.deep_view() =~= before.push(word@));
}

/// Adds the keywords from `abstract` to `const`.
fn push_keywords_a_to_const(words: &mut Vec<String>)
    ensures
        final(words).deep_view() == old(words).deep_view() + keywords_a_to_const(),
{
    push_word(words, "abstract");
    push_word(words, "assert");
    push_word(words, "boolean");
    push_word(words, "break");
    push_word(words, "byte");
    push_word(words, "case");
    push_word(words, "catch");
    push_word(words, "char");
    push_word(words, "class");
    push_word(words, "const");
    assert(words.deep_view() =~= old(words).deep_view() + keywords_a_to_const());
}

/// Adds the keywords from `continue` to `float`.
fn push_keywords_continue_to_float(words: &mut Vec<String>)
    ensures
        final(words).deep_view() == old(words).deep_view() + keywords_continue_to_float(),
{
    push_word(words, "continue");
    push_word(words, "default");
    push_word(words, "do");
    push_word(words, "double");
    push_word(words, "else");
    push_word(words, "enum");
    push_word(words, "extends");
    push_word(words, "final");
    push_word(words, "finally");
    push_word(words, "float");
    assert(words.deep_view() =~= old(words).deep_view() + keywords_continue_to_float());
}

/// Adds the keywords from `for` to `native`.
fn push_keywords_for_to_native(words: &mut Vec<String>)
    ensures
        final(words).deep_view() == old(words).deep_view() + keywords_for_to_native(),
{
    push_word(words, "for");
    push_word(words, "goto");
    push_word(words, "if");
    push_word(words, "implements");
    push_word(words, "import");
    push_word(words, "instanceof");
    push_word(words, "int");
    push_word(words, "interface");
    push_word(words, "long");
    push_word(words, "native");
    assert(words.deep_view() =~= old(words).deep_view() + keywords_for_to_native());
}

/// Adds the keywords from `new` to `super`.
fn push_keywords_new_to_super(words: &mut Vec<String>)
    ensures
        final(words).deep_view() == old(words).deep_view() + keywords_new_to_super(),
{
    push_word(words, "new");
    push_word(words, "package");
    push_word(words, "private");
    push_word(words, "protected");
    push_word(words, "public");
    push_word(words, "return");
    push_word(words, "short");
    push_word(words, "static");
    push_word(words, "strictfp");
    push_word(words, "super");
    assert(words.deep_view() =~= old(words).deep_view() + keywords_new_to_super());
}

/// Adds the keywords from `switch` to `while`.
fn push_keywords_switch_to_while(words: &mut Vec<String>)
    ensures
        final(words).deep_view() == old(words).deep_view() + keywords_switch_to_while(),
{
    push_word(words, "switch");
    push_word(words, "synchronized");
    push_word(words, "this");
    push_word(words, "throw");
    push_word(words, "throws");
    push_word(words, "transient");
    push_word(words, "try");
    push_word(words, "void");
    push_word(words, "volatile");
    push_word(words, "while");
    assert(words.deep_view() =~= old(words).deep_view() + keywords_switch_to_while());
}

impl ServerConfig {
    /// The configuration for the language in the version `version`.
    pub fn for_version(version: u16) -> (r: ServerConfig)
        ensures
            r.keywords.deep_view() == keywords_of(version),
    {
        let mut words: Vec<String> = Vec::new();
        assert(words.deep_view() =~= Seq::<Seq<char>>::empty());
        push_keywords_a_to_const(&mut words);
        push_keywords_continue_to_float(&mut words);
        push_keywords_for_to_native(&mut words);
        push_keywords_new_to_super(&mut words);
        push_keywords_switch_to_while(&mut words);
        assert(words.deep_view() =~= base_keywords());
        let ghost base = words.deep_view();
        if version >= 10 {
            push_word(&mut words, "var");
        }
        let ghost with_var = words.deep_view();
        if version >= 14 {
            push_word(&mut words, "yield");
        }
        let ghost with_yield = words.deep_view();
        if version >= 16 {
            push_word(&mut words, "record");
            push_word(&mut words, "sealed");
            push_word(&mut words, "non-sealed");
            push_word(&mut words, "permits");
        }
        assert(words.deep_view() =~= keywords_of(version));
        ServerConfig { keywords: words }
    }
}

} // verus!
