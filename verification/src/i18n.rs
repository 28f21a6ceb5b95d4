use vstd::prelude::*;
use crate::text::{append_str, ascii_lower_code, chars_of, eq_ignore_ascii_case, eq_ignore_ascii_case_spec, push_char,
    replace_all, replace_spec, string_of};
use crate::text_map::TextMap;

verus! {

#[verifier::external_type_specification]
#[verifier::external_body]
pub struct ExJsonValue(serde_json::Value);

/// Translated messages by dotted key ("module.key").
pub type Catalog = TextMap<String>;

/// A JSON document as the translations read it: objects, strings, and anything else.
pub enum JsonNode {
    /// An object's members, in the order the parser yields them.
    Object(Vec<(String, JsonNode)>),
    /// A string.
    Text(String),
    /// A number, boolean, null or array: the translations ignore these.
    Other,
}

/// The dotted key of a member `k` under `prefix`.
pub open spec fn join_key(prefix: Seq<char>, k: Seq<char>) -> Seq<char> {
    if prefix.len() == 0 {
        k
    } else {
        prefix + seq!['.'] + k
    }
}

/// The (key, text) pairs that flattening a node yields, in order.
pub open spec fn flatten_node(node: JsonNode, prefix: Seq<char>) -> Seq<(Seq<char>, Seq<char>)>
    decreases node, 0nat,
{
    match node {
        JsonNode::Object(children) => flatten_members(children@, prefix, children@.len()),
        JsonNode::Text(s) => seq![(prefix, s@)],
        JsonNode::Other => seq![],
    }
}

/// The pairs that the first `n` members of an object yield.
pub open spec fn flatten_members(
    members: Seq<(String, JsonNode)>,
    prefix: Seq<char>,
    n: nat,
) -> Seq<(Seq<char>, Seq<char>)>
    decreases members, n,
{
    if n == 0 || n > members.len() {
        seq![]
    } else {
        flatten_members(members, prefix, (n - 1) as nat) + flatten_node(
            members[n - 1].1,
            join_key(prefix, members[n - 1].0@),
        )
    }
}

/// A map after inserting each pair in turn.
pub open spec fn insert_pairs(m: Map<Seq<char>, Seq<char>>, pairs: Seq<(Seq<char>, Seq<char>)>) -> Map<
    Seq<char>,
    Seq<char>,
>
    decreases pairs.len(),
{
    if pairs.len() == 0 {
        m
    } else {
        insert_pairs(m, pairs.drop_last()).insert(pairs.last().0, pairs.last().1)
    }
}

proof fn lemma_insert_pairs_append(
    m: Map<Seq<char>, Seq<char>>,
    a: Seq<(Seq<char>, Seq<char>)>,
    b: Seq<(Seq<char>, Seq<char>)>,
)
    ensures
        insert_pairs(m, a + b) == insert_pairs(insert_pairs(m, a), b),
    decreases b.len(),
{
    if b.len() == 0 {
        assert(a + b == a);
    } else {
        assert((a + b).drop_last() == a + b.drop_last());
        assert((a + b).last() == b.last());
        lemma_insert_pairs_append(m, a, b.drop_last());
    }
}

fn member_key(prefix: &str, k: &str) -> (key: String)
    ensures
        key@ == join_key(prefix@, k@),
{
    if prefix.is_empty() {
        return k.to_owned();
    }
    let mut key = prefix.to_owned();
    push_char(&mut key, '.');
    append_str(&mut key, k);
    key
}

/// Adds the strings of a JSON document to `out` under dotted keys: a string at path
/// `a` / `b` goes under "a.b"; numbers, booleans, nulls and arrays are left out.
pub fn flatten(node: &JsonNode, prefix: &str, out: &mut Catalog)
    ensures
        final(out)@ == insert_pairs(old(out)@, flatten_node(*node, prefix@)),
    decreases node,
{
    match node {
        JsonNode::Object(members) => {
            let ghost start = out@;
            for i in 0..members.len()
                invariant
                    *node == JsonNode::Object(*members),
                    out@ == insert_pairs(start, flatten_members(members@, prefix@, i as nat)),
            {
                let key = member_key(prefix, members[i].0.as_str());
                proof {
                    assert(decreases_to!(*node => (*node)->Object_0));
                    assert(decreases_to!(*members => members@));
                    assert(decreases_to!(members@ => members@[i as int]));
                    assert(decreases_to!(members@[i as int] => members@[i as int].1));
                    assert(decreases_to!(*node => members@[i as int].1));
                }
                let ghost before = out@;
                flatten(&members[i].1, key.as_str(), out);
                proof {
                    lemma_insert_pairs_append(
                        start,
                        flatten_members(members@, prefix@, i as nat),
                        flatten_node(members@[i as int].1, key@),
                    );
                }
            }
            assert(flatten_node(*node, prefix@) == flatten_members(members@, prefix@, members@.len()));
            assert(out@ == insert_pairs(start, flatten_members(members@, prefix@, members@.len())));
            assert(start == old(out)@);
            assert(out@ == insert_pairs(old(out)@, flatten_node(*node, prefix@)));
        },
        JsonNode::Text(s) => {
            let ghost before = out@;
            out.insert(prefix.to_owned(), s.clone());
            let ghost pairs = seq![(prefix@, s@)];
            assert(pairs.drop_last() == Seq::<(Seq<char>, Seq<char>)>::empty());
            assert(pairs.last() == (prefix@, s@));
            assert(insert_pairs(old(out)@, pairs.drop_last()) == old(out)@);
            assert(insert_pairs(old(out)@, pairs) == old(out)@.insert(prefix@, s@));
            assert(flatten_node(*node, prefix@) == pairs);
            assert(out@ == insert_pairs(old(out)@, flatten_node(*node, prefix@)));
        },
        JsonNode::Other => {
            assert(out@ == insert_pairs(old(out)@, flatten_node(*node, prefix@)));
        },
    }
}

/// The catalog of a JSON document: its strings under dotted keys.
pub fn catalog_of(document: &JsonNode) -> (c: Catalog)
    ensures
        c@ == insert_pairs(Map::empty(), flatten_node(*document, Seq::empty())),
{
    let mut c = Catalog::new();
    let prefix = String::new();
    flatten(document, prefix.as_str(), &mut c);
    c
}

/// The few messages that the tool knows without any language file.
pub open spec fn builtin_fallback_spec() -> Map<Seq<char>, Seq<char>> {
    Map::empty().insert("errors.generic"@, "Error: {error}"@).insert(
        "lang.current"@,
        "Current language: {lang}"@,
    ).insert("lang.changed"@, "Language changed to '{lang}'."@).insert(
        "lang.not_found"@,
        "Language file '{lang}.json' not found in the 'langs' folder next to the executable."@,
    )
}

/// The messages used when no language document can be read.
pub fn builtin_fallback() -> (c: Catalog)
    ensures
        c@ == builtin_fallback_spec(),
{
    let mut c = Catalog::new();
    c.insert("errors.generic".to_owned(), "Error: {error}".to_owned());
    c.insert("lang.current".to_owned(), "Current language: {lang}".to_owned());
    c.insert("lang.changed".to_owned(), "Language changed to '{lang}'.".to_owned());
    c.insert(
        "lang.not_found".to_owned(),
        "Language file '{lang}.json' not found in the 'langs' folder next to the executable.".to_owned(),
    );
    c
}

/// The JSON documents built into the program, one for each built-in language.
pub struct BuiltinDocuments {
    pub pt_br: &'static str,
    pub en_us: &'static str,
    pub ru: &'static str,
    pub zh: &'static str,
    pub es: &'static str,
}

/// The built-in document of the language that `sigla` names: "pt-br", "en-us", "ru",
/// "zh" or "es", compared ignoring ASCII case.
pub open spec fn embedded_language_spec(docs: BuiltinDocuments, sigla: Seq<char>) -> Option<Seq<char>> {
    if eq_ignore_ascii_case_spec("pt-br"@, sigla) {
        Some(docs.pt_br@)
    } else if eq_ignore_ascii_case_spec("en-us"@, sigla) {
        Some(docs.en_us@)
    } else if eq_ignore_ascii_case_spec("ru"@, sigla) {
        Some(docs.ru@)
    } else if eq_ignore_ascii_case_spec("zh"@, sigla) {
        Some(docs.zh@)
    } else if eq_ignore_ascii_case_spec("es"@, sigla) {
        Some(docs.es@)
    } else {
        None
    }
}

/// The built-in JSON document of the language that `sigla` names, ignoring ASCII case.
pub fn embedded_language(docs: &BuiltinDocuments, sigla: &str) -> (r: Option<&'static str>)
    ensures
        r matches Some(d) ==> embedded_language_spec(*docs, sigla@) == Some(d@),
        r is None ==> embedded_language_spec(*docs, sigla@) is None,
{
    if eq_ignore_ascii_case("pt-br", sigla) {
        Some(docs.pt_br)
    } else if eq_ignore_ascii_case("en-us", sigla) {
        Some(docs.en_us)
    } else if eq_ignore_ascii_case("ru", sigla) {
        Some(docs.ru)
    } else if eq_ignore_ascii_case("zh", sigla) {
        Some(docs.zh)
    } else if eq_ignore_ascii_case("es", sigla) {
        Some(docs.es)
    } else {
        None
    }
}

/// The first letters of the built-in language codes, and their lengths.
proof fn lemma_language_codes()
    ensures
        "pt-br"@.len() == 5 && "pt-br"@[0] == 'p',
        "en-us"@.len() == 5 && "en-us"@[0] == 'e',
        "ru"@.len() == 2 && "ru"@[0] == 'r',
        "zh"@.len() == 2 && "zh"@[0] == 'z',
        "es"@.len() == 2 && "es"@[0] == 'e',
{
    reveal_strlit("pt-br");
    reveal_strlit("en-us");
    reveal_strlit("ru");
    reveal_strlit("zh");
    reveal_strlit("es");
}

/// Each built-in language is found under its code, written in any ASCII case:
/// "pt-br", "en-us", "ru", "zh" and "es" give the documents of those languages, and a
/// text that is none of the five codes (ignoring ASCII case) has no built-in document.
pub proof fn lemma_builtin_languages(docs: BuiltinDocuments, sigla: Seq<char>)
    ensures
        eq_ignore_ascii_case_spec("pt-br"@, sigla) ==> embedded_language_spec(docs, sigla) == Some(
            docs.pt_br@,
        ),
        eq_ignore_ascii_case_spec("en-us"@, sigla) ==> embedded_language_spec(docs, sigla) == Some(
            docs.en_us@,
        ),
        eq_ignore_ascii_case_spec("ru"@, sigla) ==> embedded_language_spec(docs, sigla) == Some(
            docs.ru@,
        ),
        eq_ignore_ascii_case_spec("zh"@, sigla) ==> embedded_language_spec(docs, sigla) == Some(
            docs.zh@,
        ),
        eq_ignore_ascii_case_spec("es"@, sigla) ==> embedded_language_spec(docs, sigla) == Some(
            docs.es@,
        ),
        embedded_language_spec(docs, sigla) is Some <==> (eq_ignore_ascii_case_spec("pt-br"@, sigla)
            || eq_ignore_ascii_case_spec("en-us"@, sigla) || eq_ignore_ascii_case_spec("ru"@, sigla)
            || eq_ignore_ascii_case_spec("zh"@, sigla) || eq_ignore_ascii_case_spec("es"@, sigla)),
{
    lemma_language_codes();
    if sigla.len() > 0 {
        let l = ascii_lower_code(sigla[0]);
        assert(ascii_lower_code("pt-br"@[0]) == ascii_lower_code('p'));
        assert(ascii_lower_code("en-us"@[0]) == ascii_lower_code('e'));
        assert(ascii_lower_code("ru"@[0]) == ascii_lower_code('r'));
        assert(ascii_lower_code("zh"@[0]) == ascii_lower_code('z'));
        assert(ascii_lower_code("es"@[0]) == ascii_lower_code('e'));
        assert(ascii_lower_code('p') != ascii_lower_code('e'));
        assert(ascii_lower_code('r') != ascii_lower_code('z'));
        assert(ascii_lower_code('r') != ascii_lower_code('e'));
        assert(ascii_lower_code('z') != ascii_lower_code('e'));
        if eq_ignore_ascii_case_spec("pt-br"@, sigla) {
            assert(ascii_lower_code("pt-br"@[0]) == l);
        }
        if eq_ignore_ascii_case_spec("en-us"@, sigla) {
            assert(ascii_lower_code("en-us"@[0]) == l);
        }
        if eq_ignore_ascii_case_spec("ru"@, sigla) {
            assert(ascii_lower_code("ru"@[0]) == l);
        }
        if eq_ignore_ascii_case_spec("zh"@, sigla) {
            assert(ascii_lower_code("zh"@[0]) == l);
        }
        if eq_ignore_ascii_case_spec("es"@, sigla) {
            assert(ascii_lower_code("es"@[0]) == l);
        }
    }
}

// ---------------------------------------------------------------------------
// Reading language documents.

/// The JSON document that a text holds, as serde_json parses it into a `Value` and the
/// translations read it; `None` when the text is not JSON.
pub uninterp spec fn json_document(text: Seq<char>) -> Option<JsonNode>;

/// Parses a text with `serde_json::from_str::<serde_json::Value>` and takes the result
/// as a `JsonNode`. The contract names the result and claims nothing more of it than
/// that it depends on the text alone.
#[verifier::external_body]
pub fn parse_json_document(text: &str) -> (r: Option<JsonNode>)
    ensures
        r == json_document(text@),
{
    serde_json::from_str::<serde_json::Value>(text).ok().map(|v| json_node_of(&v))
}

/// A `serde_json::Value` as a `JsonNode`: objects member by member in the order the map
/// yields them, strings as text, anything else as `Other`. Nothing is claimed of the
/// result here: what the parse gives is named by `json_document`.
#[verifier::external_body]
fn json_node_of(value: &serde_json::Value) -> JsonNode {
    match value {
        serde_json::Value::Object(map) => {
            JsonNode::Object(map.iter().map(|(k, v)| (k.clone(), json_node_of(v))).collect())
        },
        serde_json::Value::String(s) => JsonNode::Text(s.clone()),
        _ => JsonNode::Other,
    }
}

/// The catalog that a language document's text gives: its strings under dotted keys.
pub open spec fn parse_json_spec(text: Seq<char>) -> Option<Map<Seq<char>, Seq<char>>> {
    match json_document(text) {
        Some(d) => Some(insert_pairs(Map::empty(), flatten_node(d, Seq::empty()))),
        None => None,
    }
}

/// The catalog of a language document, or `None` when its text is not JSON.
pub fn parse_json(text: &str) -> (r: Option<Catalog>)
    ensures
        r is Some <==> json_document(text@) is Some,
        r matches Some(c) ==> parse_json_spec(text@) == Some(c@),
{
    match parse_json_document(text) {
        Some(d) => Some(catalog_of(&d)),
        None => None,
    }
}

/// The catalog to use: the language document beside the executable when it could be
/// read and is JSON, else the built-in document of the language when it is JSON, else
/// the built-in fallback messages.
pub open spec fn load_translations_spec(
    file_text: Option<Seq<char>>,
    docs: BuiltinDocuments,
    language: Seq<char>,
) -> Map<Seq<char>, Seq<char>> {
    let from_file = match file_text {
        Some(t) => parse_json_spec(t),
        None => None,
    };
    match from_file {
        Some(c) => c,
        None => match embedded_language_spec(docs, language) {
            Some(d) => match parse_json_spec(d) {
                Some(c) => c,
                None => builtin_fallback_spec(),
            },
            None => builtin_fallback_spec(),
        },
    }
}

/// Picks the translations of `language`, given the text of its document beside the
/// executable when that could be read.
pub fn load_translations(file_text: Option<&str>, docs: &BuiltinDocuments, language: &str) -> (c:
    Catalog)
    ensures
        c@ == load_translations_spec(
            match file_text {
                Some(t) => Some(t@),
                None => None,
            },
            *docs,
            language@,
        ),
{
    if let Some(text) = file_text {
        if let Some(c) = parse_json(text) {
            return c;
        }
    }
    match embedded_language(docs, language) {
        Some(doc) => match parse_json(doc) {
            Some(c) => c,
            None => builtin_fallback(),
        },
        None => builtin_fallback(),
    }
}

/// A language document beside the executable that is JSON wins over the built-in one;
/// without one, a built-in language (its code in any ASCII case) gives the catalog of its
/// built-in document when that is JSON; any other language gives the fallback messages.
pub proof fn lemma_translations_source(
    file_text: Option<Seq<char>>,
    docs: BuiltinDocuments,
    language: Seq<char>,
)
    ensures
        (file_text matches Some(t) && parse_json_spec(t) is Some) ==> load_translations_spec(
            file_text,
            docs,
            language,
        ) == parse_json_spec(file_text->0)->0,
        (file_text is None && eq_ignore_ascii_case_spec("es"@, language) && parse_json_spec(
            docs.es@,
        ) is Some) ==> load_translations_spec(file_text, docs, language) == parse_json_spec(
            docs.es@,
        )->0,
        (file_text is None && eq_ignore_ascii_case_spec("pt-br"@, language) && parse_json_spec(
            docs.pt_br@,
        ) is Some) ==> load_translations_spec(file_text, docs, language) == parse_json_spec(
            docs.pt_br@,
        )->0,
        (file_text is None && eq_ignore_ascii_case_spec("en-us"@, language) && parse_json_spec(
            docs.en_us@,
        ) is Some) ==> load_translations_spec(file_text, docs, language) == parse_json_spec(
            docs.en_us@,
        )->0,
        (file_text is None && eq_ignore_ascii_case_spec("ru"@, language) && parse_json_spec(
            docs.ru@,
        ) is Some) ==> load_translations_spec(file_text, docs, language) == parse_json_spec(
            docs.ru@,
        )->0,
        (file_text is None && eq_ignore_ascii_case_spec("zh"@, language) && parse_json_spec(
            docs.zh@,
        ) is Some) ==> load_translations_spec(file_text, docs, language) == parse_json_spec(
            docs.zh@,
        )->0,
        (file_text is None && !eq_ignore_ascii_case_spec("pt-br"@, language)
            && !eq_ignore_ascii_case_spec("en-us"@, language) && !eq_ignore_ascii_case_spec(
            "ru"@,
            language,
        ) && !eq_ignore_ascii_case_spec("zh"@, language) && !eq_ignore_ascii_case_spec(
            "es"@,
            language,
        )) ==> load_translations_spec(file_text, docs, language) == builtin_fallback_spec(),
{
    lemma_builtin_languages(docs, language);
}

/// The message for `key`, or "[key]" when the catalog has none.
pub open spec fn t_spec(m: Map<Seq<char>, Seq<char>>, key: Seq<char>) -> Seq<char> {
    if m.contains_key(key) {
        m[key]
    } else {
        seq!['['] + key + seq![']']
    }
}

/// The placeholder "{name}".
pub open spec fn placeholder(name: Seq<char>) -> Seq<char> {
    seq!['{'] + name + seq!['}']
}

/// The text with each placeholder "{name}" replaced by its value, one argument after the other.
pub open spec fn fill_args(text: Seq<char>, args: Seq<(Seq<char>, Seq<char>)>) -> Seq<char>
    decreases args.len(),
{
    if args.len() == 0 {
        text
    } else {
        replace_spec(fill_args(text, args.drop_last()), placeholder(args.last().0), args.last().1)
    }
}

/// The arguments as pairs of texts.
pub open spec fn args_view(args: Seq<(&str, &str)>) -> Seq<(Seq<char>, Seq<char>)> {
    args.map_values(|p: (&str, &str)| (p.0@, p.1@))
}

/// The message for `key` (never fails: a missing key gives "[key]").
pub fn t(catalog: &Catalog, key: &str) -> (r: String)
    ensures
        r@ == t_spec(catalog@, key@),
{
    match catalog.get(key) {
        Some(v) => v.clone(),
        None => {
            let mut r = String::new();
            push_char(&mut r, '[');
            append_str(&mut r, key);
            push_char(&mut r, ']');
            r
        },
    }
}

/// The message for `key` with each placeholder "{name}" replaced by its value.
pub fn t_args(catalog: &Catalog, key: &str, args: &[(&str, &str)]) -> (r: String)
    ensures
        r@ == fill_args(t_spec(catalog@, key@), args_view(args@)),
{
    let first = t(catalog, key);
    let mut text = chars_of(first.as_str());
    let ghost all = args_view(args@);
    for i in 0..args.len()
        invariant
            all == args_view(args@),
            text@ == fill_args(t_spec(catalog@, key@), all.take(i as int)),
    {
        let (name, value) = args[i];
        let mut pat: Vec<char> = Vec::new();
        pat.push('{');
        let name_chars = chars_of(name);
        pat.append(&mut name_chars.clone());
        pat.push('}');
        let rep = chars_of(value);
        text = replace_all(text.as_slice(), pat.as_slice(), rep.as_slice());
        proof {
            assert(all.take(i + 1).drop_last() == all.take(i as int));
            assert(all.take(i + 1).last() == (name@, value@));
            assert(pat@ == placeholder(name@));
        }
    }
    assert(all.take(args@.len() as int) == all);
    string_of(text.as_slice())
}

} // verus!
