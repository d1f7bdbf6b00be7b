//! Escaping of names that the target language would not accept as they are.

use vstd::prelude::*;
use crate::context::Context;
use crate::text::{lemma_replace_char, replace, replace_spec, str_eq};

verus! {

/// Whether `s` is a word that the target language reserves, or the name of
/// its boolean type.
pub open spec fn is_reserved(s: Seq<char>) -> bool {
    s == "abstract"@ || s == "alignof"@ || s == "as"@ || s == "become"@ || s == "box"@ || s
        == "break"@ || s == "const"@ || s == "continue"@ || s == "crate"@ || s == "do"@ || s
        == "else"@ || s == "enum"@ || s == "false"@ || s == "final"@ || s == "fn"@ || s == "for"@
        || s == "if"@ || s == "impl"@ || s == "in"@ || s == "let"@ || s == "loop"@ || s == "macro"@
        || s == "match"@ || s == "mod"@ || s == "move"@ || s == "mut"@ || s == "offsetof"@ || s
        == "override"@ || s == "priv"@ || s == "proc"@ || s == "pub"@ || s == "pure"@ || s
        == "ref"@ || s == "return"@ || s == "Self"@ || s == "self"@ || s == "sizeof"@ || s
        == "static"@ || s == "struct"@ || s == "super"@ || s == "trait"@ || s == "true"@ || s
        == "type"@ || s == "typeof"@ || s == "unsafe"@ || s == "unsized"@ || s == "use"@ || s
        == "virtual"@ || s == "where"@ || s == "while"@ || s == "yield"@ || s == "bool"@
}

/// Whether `s` holds a character that no identifier may hold and that
/// mangled C++ names do hold: `@`, `?` or `$`.
pub open spec fn has_symbol_char(s: Seq<char>) -> bool {
    s.contains('@') || s.contains('?') || s.contains('$')
}

/// The name that stands for `name` in the target language: `name` itself
/// unless it is reserved or holds `@`, `?` or `$`; then each of these
/// characters becomes `_`, and one more `_` is appended.
pub open spec fn mangle_spec(name: Seq<char>) -> Seq<char> {
    if is_reserved(name) || has_symbol_char(name) {
        replace_spec(
            replace_spec(replace_spec(name, seq!['@'], seq!['_']), seq!['?'], seq!['_']),
            seq!['$'],
            seq!['_'],
        ) + seq!['_']
    } else {
        name
    }
}

/// Whether `c` is one of the characters that mangling replaces.
pub open spec fn is_symbol(c: char) -> bool {
    c == '@' || c == '?' || c == '$'
}

/// What mangling does to a name that it changes: each of `@`, `?` and `$`
/// becomes `_`, every other character stays, and one `_` is appended. A name
/// that is not reserved and holds none of the three stays as it is.
pub proof fn lemma_mangled(name: Seq<char>)
    ensures
        !(is_reserved(name) || has_symbol_char(name)) ==> mangle_spec(name) == name,
        is_reserved(name) || has_symbol_char(name) ==> {
            &&& mangle_spec(name).len() == name.len() + 1
            &&& mangle_spec(name).last() == '_'
            &&& forall|i: int|
                0 <= i < name.len() ==> #[trigger] mangle_spec(name)[i] == if is_symbol(name[i]) {
                    '_'
                } else {
                    name[i]
                }
        },
{
    if is_reserved(name) || has_symbol_char(name) {
        let one = replace_spec(name, seq!['@'], seq!['_']);
        let two = replace_spec(one, seq!['?'], seq!['_']);
        let three = replace_spec(two, seq!['$'], seq!['_']);
        lemma_replace_char(name, '@', '_');
        lemma_replace_char(one, '?', '_');
        lemma_replace_char(two, '$', '_');
        let m = mangle_spec(name);
        assert(m == three + seq!['_']);
        assert forall|i: int| 0 <= i < name.len() implies #[trigger] m[i] == if is_symbol(name[i]) {
            '_'
        } else {
            name[i]
        } by {
            assert(m[i] == three[i]);
            assert(three[i] == if two[i] == '$' {
                '_'
            } else {
                two[i]
            });
            assert(two[i] == if one[i] == '?' {
                '_'
            } else {
                one[i]
            });
            assert(one[i] == if name[i] == '@' {
                '_'
            } else {
                name[i]
            });
        }
    }
}

/// Mangling tells two names apart that begin alike and end differently,
/// where the ends hold none of `@`, `?` and `$` and neither is the other
/// with `_` appended.
pub proof fn lemma_mangle_tells_apart(begin: Seq<char>, a: Seq<char>, b: Seq<char>)
    requires
        a != b,
        !has_symbol_char(a),
        !has_symbol_char(b),
        a + seq!['_'] != b,
        b + seq!['_'] != a,
    ensures
        mangle_spec(begin + a) != mangle_spec(begin + b),
{
    let x = begin + a;
    let y = begin + b;
    lemma_mangled(x);
    lemma_mangled(y);
    assert forall|i: int| 0 <= i < a.len() implies !is_symbol(#[trigger] a[i]) by {
        assert(a.contains(a[i]));
    }
    assert forall|i: int| 0 <= i < b.len() implies !is_symbol(#[trigger] b[i]) by {
        assert(b.contains(b[i]));
    }
    assert(has_symbol_char(x) == has_symbol_char(begin)) by {
        lemma_symbols_of_both(begin, a);
    }
    assert(has_symbol_char(y) == has_symbol_char(begin)) by {
        lemma_symbols_of_both(begin, b);
    }
    let mx = is_reserved(x) || has_symbol_char(x);
    let my = is_reserved(y) || has_symbol_char(y);
    if mangle_spec(x) == mangle_spec(y) {
        let m = mangle_spec(x);
        if mx && my {
            assert(a.len() == b.len());
            assert forall|i: int| 0 <= i < a.len() implies a[i] == b[i] by {
                assert(x[begin.len() + i] == a[i]);
                assert(y[begin.len() + i] == b[i]);
                assert(m[begin.len() + i] == a[i]);
                assert(m[begin.len() + i] == b[i]);
            }
            assert(a =~= b);
        } else if !mx && !my {
            assert(x.skip(begin.len() as int) =~= a);
            assert(y.skip(begin.len() as int) =~= b);
        } else if mx {
            assert forall|i: int| 0 <= i < x.len() implies !is_symbol(#[trigger] x[i]) by {
                assert(x.contains(x[i]));
            }
            assert(b.len() == a.len() + 1);
            assert forall|i: int| 0 <= i < b.len() implies b[i] == (a + seq!['_'])[i] by {
                assert(y[begin.len() + i] == b[i]);
                if i < a.len() {
                    assert(x[begin.len() + i] == a[i]);
                    assert(m[begin.len() + i] == x[begin.len() + i]);
                } else {
                    assert(m.last() == '_');
                }
            }
            assert(b =~= a + seq!['_']);
        } else {
            assert forall|i: int| 0 <= i < y.len() implies !is_symbol(#[trigger] y[i]) by {
                assert(y.contains(y[i]));
            }
            assert(a.len() == b.len() + 1);
            assert forall|i: int| 0 <= i < a.len() implies a[i] == (b + seq!['_'])[i] by {
                assert(x[begin.len() + i] == a[i]);
                if i < b.len() {
                    assert(y[begin.len() + i] == b[i]);
                    assert(m[begin.len() + i] == y[begin.len() + i]);
                } else {
                    assert(m.last() == '_');
                }
            }
            assert(a =~= b + seq!['_']);
        }
    }
}

/// A name holds one of `@`, `?` and `$` where its beginning or its end does.
pub proof fn lemma_symbols_of_both(begin: Seq<char>, end: Seq<char>)
    ensures
        has_symbol_char(begin + end) == (has_symbol_char(begin) || has_symbol_char(end)),
{
    let all = begin + end;
    assert forall|c: char| all.contains(c) == (begin.contains(c) || end.contains(c)) by {
        if all.contains(c) {
            let i = choose|i: int| 0 <= i < all.len() && all[i] == c;
            if i < begin.len() {
                assert(begin[i] == c);
            } else {
                assert(end[i - begin.len()] == c);
            }
        }
        if begin.contains(c) {
            let i = choose|i: int| 0 <= i < begin.len() && begin[i] == c;
            assert(all[i] == c);
        }
        if end.contains(c) {
            let i = choose|i: int| 0 <= i < end.len() && end[i] == c;
            assert(all[begin.len() + i] == c);
        }
    }
}

fn is_reserved_word(s: &str) -> (r: bool)
    ensures
        r == is_reserved(s@),
{
    str_eq(s, "abstract") || str_eq(s, "alignof") || str_eq(s, "as") || str_eq(s, "become")
        || str_eq(s, "box") || str_eq(s, "break") || str_eq(s, "const") || str_eq(s, "continue")
        || str_eq(s, "crate") || str_eq(s, "do") || str_eq(s, "else") || str_eq(s, "enum")
        || str_eq(s, "false") || str_eq(s, "final") || str_eq(s, "fn") || str_eq(s, "for")
        || str_eq(s, "if") || str_eq(s, "impl") || str_eq(s, "in") || str_eq(s, "let") || str_eq(
        s,
        "loop",
    ) || str_eq(s, "macro") || str_eq(s, "match") || str_eq(s, "mod") || str_eq(s, "move")
        || str_eq(s, "mut") || str_eq(s, "offsetof") || str_eq(s, "override") || str_eq(s, "priv")
        || str_eq(s, "proc") || str_eq(s, "pub") || str_eq(s, "pure") || str_eq(s, "ref")
        || str_eq(s, "return") || str_eq(s, "Self") || str_eq(s, "self") || str_eq(s, "sizeof")
        || str_eq(s, "static") || str_eq(s, "struct") || str_eq(s, "super") || str_eq(s, "trait")
        || str_eq(s, "true") || str_eq(s, "type") || str_eq(s, "typeof") || str_eq(s, "unsafe")
        || str_eq(s, "unsized") || str_eq(s, "use") || str_eq(s, "virtual") || str_eq(s, "where")
        || str_eq(s, "while") || str_eq(s, "yield") || str_eq(s, "bool")
}

fn contains_char(s: &str, c: char) -> (r: bool)
    ensures
        r == s@.contains(c),
{
    let n: usize = s.unicode_len();
    let mut i: usize = 0;
    while i < n
        invariant
            i <= n,
            n == s@.len(),
            forall|k: int| 0 <= k < i ==> s@[k] != c,
        decreases n - i,
    {
        if s.get_char(i) == c {
            return true;
        }
        i += 1;
    }
    false
}

/// The name that stands for `name` in the target language.
pub fn rust_mangle(name: &str) -> (r: String)
    ensures
        r@ == mangle_spec(name@),
{
    if is_reserved_word(name) || contains_char(name, '@') || contains_char(name, '?')
        || contains_char(name, '$') {
        proof {
            reveal_strlit("@");
            reveal_strlit("?");
            reveal_strlit("$");
            reveal_strlit("_");
        }
        assert("@"@ =~= seq!['@']);
        assert("?"@ =~= seq!['?']);
        assert("$"@ =~= seq!['$']);
        assert("_"@ =~= seq!['_']);
        let a = replace(name, "@", "_");
        let b = replace(a.as_str(), "?", "_");
        let mut c = replace(b.as_str(), "$", "_");
        c.append("_");
        c
    } else {
        String::from_str(name)
    }
}

impl Context {
    /// The name that stands for `name` in the target language.
    pub fn rust_mangle(&self, name: &str) -> (r: String)
        ensures
            r@ == mangle_spec(name@),
    {
        rust_mangle(name)
    }
}

} // verus!
