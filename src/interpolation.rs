//! Template interpolation: `{{name}}` reads a variable, `{{@path}}` a global, where a
//! dotted path walks into nested objects.
use vstd::prelude::*;
use crate::json::{JsonValue, display_text, field_of};
use crate::table::Table;
use crate::text::{find_from, find_subslice, lemma_find_from, occurs_at, split_char, split_spec, trim, trim_spec};

verus! {

/// The opening delimiter of a token.
pub open spec fn open_delim() -> Seq<char> {
    seq!['{', '{']
}

/// The closing delimiter of a token.
pub open spec fn close_delim() -> Seq<char> {
    seq!['}', '}']
}

/// The value reached from `v` by following the object keys `segs`, each trimmed.
pub open spec fn walk(v: JsonValue, segs: Seq<Seq<char>>) -> Option<JsonValue>
    decreases segs.len(),
{
    if segs.len() == 0 {
        Some(v)
    } else {
        match field_of(v, trim_spec(segs[0])) {
            Some(x) => walk(x, segs.drop_first()),
            None => None,
        }
    }
}

/// The global at a dotted path: its first segment names a global, the others walk
/// into nested objects.
pub open spec fn global_at(globals: Map<Seq<char>, JsonValue>, path: Seq<char>) -> Option<JsonValue> {
    let segs = split_spec(path, '.');
    let first = trim_spec(segs[0]);
    if globals.contains_key(first) {
        walk(globals[first], segs.drop_first())
    } else {
        None
    }
}

/// What a token stands for. `whole` is the token with its delimiters, `inner` what
/// stands between them; a token that resolves to nothing stays as it was.
pub open spec fn resolve_token(
    whole: Seq<char>,
    inner: Seq<char>,
    vars: Map<Seq<char>, Seq<char>>,
    globals: Map<Seq<char>, JsonValue>,
) -> Seq<char> {
    let token = trim_spec(inner);
    if token.len() == 0 {
        whole
    } else if token[0] == '@' {
        match global_at(globals, trim_spec(token.drop_first())) {
            Some(v) => display_text(v),
            None => whole,
        }
    } else if vars.contains_key(token) {
        vars[token]
    } else {
        whole
    }
}

/// The interpolation of `t` from position `i` on.
pub open spec fn interp_from(
    t: Seq<char>,
    i: int,
    vars: Map<Seq<char>, Seq<char>>,
    globals: Map<Seq<char>, JsonValue>,
) -> Seq<char>
    decreases t.len() - i,
{
    if i < 0 || i > t.len() {
        Seq::empty()
    } else {
        match find_from(t, open_delim(), i) {
            None => t.subrange(i, t.len() as int),
            Some(s) => match find_from(t, close_delim(), s + 2) {
                None => t.subrange(i, t.len() as int),
                Some(e) => {
                    proof {
                        lemma_find_from(t, open_delim(), i);
                        lemma_find_from(t, close_delim(), s + 2);
                    }
                    t.subrange(i, s) + resolve_token(
                        t.subrange(s, e + 2),
                        t.subrange(s + 2, e),
                        vars,
                        globals,
                    ) + interp_from(t, e + 2, vars, globals)
                },
            },
        }
    }
}

/// The interpolation of a whole template.
pub open spec fn interp(
    t: Seq<char>,
    vars: Map<Seq<char>, Seq<char>>,
    globals: Map<Seq<char>, JsonValue>,
) -> Seq<char> {
    interp_from(t, 0, vars, globals)
}

/// Looks up a global by a dotted path and gives the text that stands for it.
pub fn lookup_global(globals: &Table<JsonValue>, path: &str) -> (r: Option<String>)
    ensures
        match global_at(globals@, path@) {
            Some(v) => r is Some && r->Some_0@ == display_text(v),
            None => r is None,
        },
{
    let segs = split_char(path, '.');
    proof {
        assert(segs@.len() >= 1) by {
            crate::text::lemma_split_nonempty(path@, '.');
        }
    }
    let first = trim(segs[0].as_str());
    let mut current: &JsonValue = match globals.get(first) {
        Some(v) => v,
        None => {
            return None;
        },
    };
    let ghost all = split_spec(path@, '.');
    let mut k: usize = 1;
    while k < segs.len()
        invariant
            segs@.len() == all.len(),
            forall|i: int| 0 <= i < segs@.len() ==> #[trigger] segs@[i]@ == all[i],
            1 <= k <= segs@.len(),
            global_at(globals@, path@) == walk(*current, all.subrange(k as int, all.len() as int)),
        decreases segs@.len() - k,
    {
        let seg = trim(segs[k].as_str());
        proof {
            let rest = all.subrange(k as int, all.len() as int);
            assert(rest.drop_first() =~= all.subrange(k + 1, all.len() as int));
            assert(rest[0] == all[k as int]);
        }
        match current.get(seg) {
            Some(next) => {
                current = next;
            },
            None => {
                return None;
            },
        }
        k = k + 1;
    }
    proof {
        assert(all.subrange(k as int, all.len() as int) =~= Seq::<Seq<char>>::empty());
        assert(all.drop_first() =~= all.subrange(1, all.len() as int));
    }
    Some(current.display_text())
}

/// Replaces every token of `template` with what it stands for: `{{name}}` with the
/// variable `name`, `{{@path}}` with the global at `path`. Unknown and empty tokens stay
/// as they were; an opening delimiter without a closing one leaves the rest as it is.
pub fn interpolate_string(template: &str, vars: &Table<String>, globals: &Table<JsonValue>) -> (r:
    String)
    ensures
        r@ == interp(template@, vars@.map_values(|v: String| v@), globals@),
{
    let ghost t = template@;
    let ghost vm = vars@.map_values(|v: String| v@);
    let n = template.unicode_len();
    let mut out = String::new();
    let mut idx: usize = 0;
    loop
        invariant
            n == t.len(),
            t == template@,
            vm == vars@.map_values(|v: String| v@),
            idx <= n,
            out@ + interp_from(t, idx as int, vm, globals@) == interp(t, vm, globals@),
        decreases n - idx,
    {
        proof {
            lemma_find_from(t, open_delim(), idx as int);
            reveal_strlit("{{");
            reveal_strlit("}}");
            assert("{{"@ =~= open_delim());
            assert("}}"@ =~= close_delim());
        }
        let start = match find_subslice(template, "{{", idx) {
            Some(s) => s,
            None => {
                let rest = template.substring_char(idx, n);
                out.append(rest);
                proof {
                    assert(out@ =~= interp(t, vm, globals@));
                }
                return out;
            },
        };
        out.append(template.substring_char(idx, start));
        let content_start = start + 2;
        proof {
            lemma_find_from(t, close_delim(), content_start as int);
        }
        match find_subslice(template, "}}", content_start) {
            Some(end) => {
                let raw = template.substring_char(content_start, end);
                let token = trim(raw);
                let whole = template.substring_char(start, end + 2);
                if token.unicode_len() == 0 {
                    out.append(whole);
                } else if token.get_char(0) == '@' {
                    let stripped = trim(token.substring_char(1, token.unicode_len()));
                    proof {
                        assert(token@.drop_first() =~= token@.subrange(1, token@.len() as int));
                    }
                    match lookup_global(globals, stripped) {
                        Some(text) => out.append(text.as_str()),
                        None => out.append(whole),
                    }
                } else {
                    match vars.get(token) {
                        Some(v) => out.append(v.as_str()),
                        None => out.append(whole),
                    }
                }
                proof {
                    assert(out@ + interp_from(t, end + 2, vm, globals@) =~= interp(t, vm, globals@));
                }
                idx = end + 2;
            },
            None => {
                out.append(template.substring_char(start, n));
                proof {
                    assert(out@ =~= interp(t, vm, globals@));
                }
                return out;
            },
        }
    }
}

/// `r` is `v` with every string inside it interpolated; other values and the shape of
/// arrays and objects stay as they were.
pub open spec fn interpolated_json(
    v: JsonValue,
    r: JsonValue,
    vars: Map<Seq<char>, Seq<char>>,
    globals: Map<Seq<char>, JsonValue>,
) -> bool
    decreases v,
{
    match v {
        JsonValue::Str(s) => r is Str && r->Str_0@ == interp(s@, vars, globals),
        JsonValue::Array(items) => r is Array && items_interpolated(
            items@,
            r->Array_0@,
            vars,
            globals,
        ),
        JsonValue::Object(fields) => r is Object && fields_interpolated(
            fields@,
            r->Object_0@,
            vars,
            globals,
        ),
        JsonValue::Number(t) => r is Number && r->Number_0@ == t@,
        JsonValue::Bool(b) => r == JsonValue::Bool(b),
        JsonValue::Null => r is Null,
    }
}

/// Each of `b` is the one of `a` at its position, interpolated.
pub open spec fn items_interpolated(
    a: Seq<JsonValue>,
    b: Seq<JsonValue>,
    vars: Map<Seq<char>, Seq<char>>,
    globals: Map<Seq<char>, JsonValue>,
) -> bool
    decreases a,
{
    &&& a.len() == b.len()
    &&& a.len() > 0 ==> items_interpolated(a.drop_last(), b.drop_last(), vars, globals)
        && interpolated_json(a.last(), b.last(), vars, globals)
}

/// Each field of `b` has the key of the one of `a` at its position and its value
/// interpolated.
pub open spec fn fields_interpolated(
    a: Seq<(String, JsonValue)>,
    b: Seq<(String, JsonValue)>,
    vars: Map<Seq<char>, Seq<char>>,
    globals: Map<Seq<char>, JsonValue>,
) -> bool
    decreases a,
{
    &&& a.len() == b.len()
    &&& a.len() > 0 ==> fields_interpolated(a.drop_last(), b.drop_last(), vars, globals)
        && b.last().0@ == a.last().0@ && interpolated_json(a.last().1, b.last().1, vars, globals)
}

/// Interpolates every string inside a JSON value, keeping everything else.
pub fn interpolate_json(value: &JsonValue, vars: &Table<String>, globals: &Table<JsonValue>) -> (r:
    JsonValue)
    ensures
        interpolated_json(*value, r, vars@.map_values(|v: String| v@), globals@),
    decreases value,
{
    let ghost vm = vars@.map_values(|v: String| v@);
    match value {
        JsonValue::Null => JsonValue::Null,
        JsonValue::Bool(b) => JsonValue::Bool(*b),
        JsonValue::Number(t) => JsonValue::Number(t.clone()),
        JsonValue::Str(s) => JsonValue::Str(interpolate_string(s.as_str(), vars, globals)),
        JsonValue::Array(items) => {
            let mut out: Vec<JsonValue> = Vec::new();
            let mut i: usize = 0;
            while i < items.len()
                invariant
                    *value == JsonValue::Array(*items),
                    vm == vars@.map_values(|v: String| v@),
                    i <= items@.len(),
                    items_interpolated(items@.subrange(0, i as int), out@, vm, globals@),
                decreases items@.len() - i,
            {
                proof {
                    let ghost v = *value;
                    assert(decreases_to!(v => v->Array_0));
                    vstd::std_specs::vec::axiom_vec_index_decreases(*items, i as int);
                }
                let x = interpolate_json(&items[i], vars, globals);
                let ghost before = out@;
                out.push(x);
                proof {
                    let a = items@.subrange(0, i as int + 1);
                    assert(a.drop_last() =~= items@.subrange(0, i as int));
                    assert(out@.drop_last() =~= before);
                }
                i = i + 1;
            }
            proof {
                assert(items@.subrange(0, i as int) =~= items@);
            }
            JsonValue::Array(out)
        },
        JsonValue::Object(fields) => {
            let mut out: Vec<(String, JsonValue)> = Vec::new();
            let mut i: usize = 0;
            while i < fields.len()
                invariant
                    *value == JsonValue::Object(*fields),
                    vm == vars@.map_values(|v: String| v@),
                    i <= fields@.len(),
                    fields_interpolated(fields@.subrange(0, i as int), out@, vm, globals@),
                decreases fields@.len() - i,
            {
                proof {
                    let ghost v = *value;
                    assert(decreases_to!(v => v->Object_0));
                    vstd::std_specs::vec::axiom_vec_index_decreases(*fields, i as int);
                }
                let x = interpolate_json(&fields[i].1, vars, globals);
                let ghost before = out@;
                out.push((fields[i].0.clone(), x));
                proof {
                    let a = fields@.subrange(0, i as int + 1);
                    assert(a.drop_last() =~= fields@.subrange(0, i as int));
                    assert(out@.drop_last() =~= before);
                }
                i = i + 1;
            }
            proof {
                assert(fields@.subrange(0, i as int) =~= fields@);
            }
            JsonValue::Object(out)
        },
    }
}

/// A template with no opening delimiter comes out of interpolation unchanged, whatever
/// the variables and globals.
pub proof fn lemma_interp_without_delimiters(
    t: Seq<char>,
    vars: Map<Seq<char>, Seq<char>>,
    globals: Map<Seq<char>, JsonValue>,
)
    requires
        forall|j: int| !occurs_at(t, open_delim(), j),
    ensures
        interp(t, vars, globals) == t,
{
    lemma_find_from(t, open_delim(), 0);
    assert(t.subrange(0, t.len() as int) =~= t);
}

/// The template that consists of one token for `k`.
pub open spec fn token_for(k: Seq<char>) -> Seq<char> {
    open_delim() + k + close_delim()
}

/// A token for a variable stands for the variable's value, and stays as it is when
/// there is no such variable. The key must be one that a token can name: not empty,
/// without surrounding white space, not starting with `@`, and with no closing
/// delimiter inside the token.
pub proof fn lemma_interp_single_variable(
    k: Seq<char>,
    vars: Map<Seq<char>, Seq<char>>,
    globals: Map<Seq<char>, JsonValue>,
)
    requires
        k.len() > 0,
        trim_spec(k) == k,
        k[0] != '@',
        forall|j: int| 0 <= j < k.len() ==> !occurs_at(k + close_delim(), close_delim(), j),
    ensures
        vars.contains_key(k) ==> interp(token_for(k), vars, globals) == vars[k],
        !vars.contains_key(k) ==> interp(token_for(k), vars, globals) == token_for(k),
{
    let t = token_for(k);
    let n = k.len() as int;
    assert(occurs_at(t, open_delim(), 0)) by {
        assert(t.subrange(0, 2) =~= open_delim());
    }
    lemma_find_from(t, open_delim(), 0);
    assert(occurs_at(t, close_delim(), n + 2)) by {
        assert(t.subrange(n + 2, n + 4) =~= close_delim());
    }
    assert forall|j: int| 2 <= j < n + 2 implies !occurs_at(t, close_delim(), j) by {
        let u = k + close_delim();
        assert(t.subrange(j, j + 2) =~= u.subrange(j - 2, j));
        assert(!occurs_at(u, close_delim(), j - 2));
    }
    lemma_find_from(t, close_delim(), 2);
    let e = find_from(t, close_delim(), 2)->Some_0;
    assert(e == n + 2);
    assert(t.subrange(2, n + 2) =~= k);
    assert(t.subrange(0, n + 4) =~= t);
    assert(t.subrange(0, 0) =~= Seq::<char>::empty());
    lemma_find_from(t, open_delim(), n + 4);
    assert(interp_from(t, n + 4, vars, globals) =~= Seq::<char>::empty());
    if vars.contains_key(k) {
        assert(interp(t, vars, globals) =~= vars[k]);
    } else {
        assert(interp(t, vars, globals) =~= t);
    }
}

} // verus!
