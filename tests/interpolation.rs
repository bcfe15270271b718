use notabot::interpolation::{interpolate_json, interpolate_string};
use notabot::json::JsonValue;
use notabot::table::Table;

fn s(t: &str) -> String {
    t.to_string()
}

fn obj(fields: Vec<(&str, JsonValue)>) -> JsonValue {
    JsonValue::Object(fields.into_iter().map(|(k, v)| (k.to_string(), v)).collect())
}

#[test]
fn test_interpolate_basic_vars() {
    let mut vars = Table::new();
    let globals = Table::new();

    vars.insert(s("name"), s("Zied"));
    vars.insert(s("greet"), s("Hello"));

    let t = "{{greet}}, {{name}}!";
    assert_eq!(interpolate_string(t, &vars, &globals), "Hello, Zied!");
}

#[test]
fn test_interpolate_globals_string_and_number() {
    let vars = Table::new();
    let mut globals = Table::new();

    globals.insert(s("app"), JsonValue::Str(s("Notabot")));
    globals.insert(s("port"), JsonValue::Number(s("8080")));

    let t = "Using {{@app}} on {{@port}}";
    assert_eq!(interpolate_string(t, &vars, &globals), "Using Notabot on 8080");
}

#[test]
fn test_interpolate_globals_dotted_path() {
    let vars = Table::new();
    let mut globals = Table::new();

    globals.insert(
        s("app"),
        obj(vec![
            ("name", JsonValue::Str(s("Notabot"))),
            ("meta", obj(vec![("version", JsonValue::Str(s("0.1.0")))])),
        ]),
    );

    assert_eq!(
        interpolate_string("{{@app.name}} v{{@app.meta.version}}", &vars, &globals),
        "Notabot v0.1.0"
    );
}

#[test]
fn test_unknown_tokens_are_preserved() {
    let vars = Table::new();
    let globals = Table::new();

    let t = "Hello, {{name}} from {{@app}}!";
    assert_eq!(interpolate_string(t, &vars, &globals), "Hello, {{name}} from {{@app}}!");
}

#[test]
fn test_interpolate_json_recursive() {
    let mut vars = Table::new();
    let mut globals = Table::new();

    vars.insert(s("user"), s("Alice"));
    globals.insert(s("app"), JsonValue::Str(s("Notabot")));

    let v = obj(vec![
        ("msg", JsonValue::Str(s("Hi {{user}} from {{@app}}"))),
        (
            "nested",
            obj(vec![(
                "arr",
                JsonValue::Array(vec![
                    JsonValue::Str(s("{{user}}")),
                    JsonValue::Number(s("1")),
                    JsonValue::Bool(true),
                ]),
            )]),
        ),
    ]);

    let out = interpolate_json(&v, &vars, &globals);
    assert_eq!(
        out,
        obj(vec![
            ("msg", JsonValue::Str(s("Hi Alice from Notabot"))),
            (
                "nested",
                obj(vec![(
                    "arr",
                    JsonValue::Array(vec![
                        JsonValue::Str(s("Alice")),
                        JsonValue::Number(s("1")),
                        JsonValue::Bool(true),
                    ]),
                )]),
            ),
        ])
    );
}

#[test]
fn text_without_delimiters_is_unchanged() {
    let mut vars = Table::new();
    vars.insert(s("x"), s("y"));
    let mut globals = Table::new();
    globals.insert(s("x"), JsonValue::Str(s("z")));
    for t in ["", "plain text", "one { brace } only", "x @x }} x"] {
        assert_eq!(interpolate_string(t, &vars, &globals), t);
    }
}

#[test]
fn single_variable_token_gives_its_value() {
    let mut vars = Table::new();
    vars.insert(s("k"), s("value of k"));
    let globals = Table::new();
    assert_eq!(interpolate_string("{{k}}", &vars, &globals), "value of k");
    assert_eq!(interpolate_string("{{other}}", &vars, &globals), "{{other}}");
}

#[test]
fn dotted_global_lookup_reaches_nested_string() {
    let vars = Table::new();
    let mut globals = Table::new();
    globals.insert(
        s("app"),
        obj(vec![("meta", obj(vec![("version", JsonValue::Str(s("0.1.0")))]))]),
    );
    assert_eq!(interpolate_string("{{@app.meta.version}}", &vars, &globals), "0.1.0");
    assert_eq!(interpolate_string("{{@app.meta.missing}}", &vars, &globals), "{{@app.meta.missing}}");
    assert_eq!(interpolate_string("{{@app.meta.version.x}}", &vars, &globals), "{{@app.meta.version.x}}");
}

#[test]
fn token_whitespace_is_trimmed_and_empty_token_kept() {
    let mut vars = Table::new();
    vars.insert(s("name"), s("Zied"));
    let mut globals = Table::new();
    globals.insert(s("app"), JsonValue::Str(s("Notabot")));
    assert_eq!(interpolate_string("{{  name  }}|{{ @ app }}", &vars, &globals), "Zied|Notabot");
    assert_eq!(interpolate_string("a{{ }}b{{}}c", &vars, &globals), "a{{ }}b{{}}c");
}

#[test]
fn unterminated_token_copies_the_rest() {
    let mut vars = Table::new();
    vars.insert(s("a"), s("1"));
    let globals = Table::new();
    assert_eq!(interpolate_string("{{a}} and {{a", &vars, &globals), "1 and {{a");
}

#[test]
fn non_string_globals_render_as_compact_json() {
    let vars = Table::new();
    let mut globals = Table::new();
    globals.insert(
        s("cfg"),
        obj(vec![
            ("on", JsonValue::Bool(true)),
            ("tags", JsonValue::Array(vec![JsonValue::Str(s("a\"b")), JsonValue::Null])),
        ]),
    );
    globals.insert(s("off"), JsonValue::Bool(false));
    assert_eq!(
        interpolate_string("{{@cfg}}", &vars, &globals),
        "{\"on\":true,\"tags\":[\"a\\\"b\",null]}"
    );
    assert_eq!(interpolate_string("{{@off}}", &vars, &globals), "false");
}
