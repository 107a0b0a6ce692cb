//! The state directory, and the preferences that the shell keeps there.
use vstd::prelude::*;

use crate::location::{join, under, Location};
use crate::platform::Platform;
use crate::text::{opt_text, same_text, texts};

verus! {

/// What decides where the state directory is.
pub struct StateEnv {
    pub platform: Platform,
    /// `COWORKER_STATE_DIR`.
    pub state_dir: Option<String>,
    /// `APPDATA`.
    pub appdata: Option<String>,
    /// `HOME`.
    pub home: Option<String>,
}

/// Where the state directory is: where `COWORKER_STATE_DIR` says; else, on Windows,
/// `coworker` below `APPDATA` if that is set; else `.config/coworker` below the home, or
/// below the current directory where there is no home.
pub open spec fn state_place(env: StateEnv) -> (Seq<char>, Seq<Seq<char>>) {
    match (opt_text(env.state_dir), opt_text(env.appdata), opt_text(env.home)) {
        (Some(dir), _, _) => (dir, seq![]),
        (None, Some(appdata), _) if env.platform == Platform::Windows => (
            appdata,
            seq!["coworker"@],
        ),
        (None, _, Some(home)) => (home, seq![".config"@, "coworker"@]),
        (None, _, None) => ("."@, seq![".config"@, "coworker"@]),
    }
}

/// The directory that holds the app's state, shared with the server.
pub fn state_dir(env: &StateEnv) -> (r: Location<String>)
    ensures
        r.text_place() == state_place(*env),
{
    let mut below: Vec<String> = Vec::new();
    if let Some(dir) = &env.state_dir {
        assert(texts(below@) == Seq::<Seq<char>>::empty());
        return Location { root: dir.clone(), below };
    }
    if env.platform == Platform::Windows {
        if let Some(appdata) = &env.appdata {
            below.push("coworker".to_owned());
            assert(texts(below@) == seq!["coworker"@]);
            return Location { root: appdata.clone(), below };
        }
    }
    below.push(".config".to_owned());
    below.push("coworker".to_owned());
    assert(texts(below@) == seq![".config"@, "coworker"@]);
    let root = match &env.home {
        Some(home) => home.clone(),
        None => ".".to_owned(),
    };
    Location { root, below }
}

/// The file that holds the preferences of the desktop app.
pub fn desktop_prefs_path(env: &StateEnv) -> (r: Location<String>)
    ensures
        r.text_place() == under(state_place(*env), "desktop.json"@),
{
    join(state_dir(env), "desktop.json")
}

/// The directory that holds the voice models.
pub fn models_dir(env: &StateEnv) -> (r: Location<String>)
    ensures
        r.text_place() == under(state_place(*env), "models"@),
{
    join(state_dir(env), "models")
}

/// The preference that keeps the system awake.
pub const KEEP_AWAKE_KEY: &'static str = "keep_awake";

/// The members of the JSON object that `serde_json` parses a text to, with the value of each
/// that is a boolean; nothing for a text that it does not parse to an object.
pub uninterp spec fn json_object(text: Seq<char>) -> Option<Map<Seq<char>, Option<bool>>>;

/// Whether a list holds exactly the members of an object, with their values.
pub open spec fn lists_members(
    list: Seq<(String, Option<bool>)>,
    object: Map<Seq<char>, Option<bool>>,
) -> bool {
    &&& forall|i: int|
        0 <= i < list.len() ==> object.contains_key((#[trigger] list[i]).0@) && object[list[i].0@]
            == list[i].1
    &&& forall|name: Seq<char>| #[trigger]
        object.contains_key(name) ==> exists|i: int|
            0 <= i < list.len() && (#[trigger] list[i]).0@ == name
}

/// Parses a text with `serde_json::from_str` to a `serde_json::Value`, and hands out the
/// members of an object, each with what `Value::as_bool` says of its value. The claims: the
/// result is `None` exactly where the text is not JSON or not an object, else the list holds
/// the object's members and nothing else, and both depend on the text alone. Which texts are
/// JSON, and which members they hold, is left to the name `json_object`.
#[verifier::external_body]
fn parse_object(text: &str) -> (r: Option<Vec<(String, Option<bool>)>>)
    ensures
        r is Some <==> json_object(text@) is Some,
        r is Some ==> lists_members(r->0@, json_object(text@)->0),
{
    match serde_json::from_str::<serde_json::Value>(text) {
        Ok(serde_json::Value::Object(object)) => Some(
            object.into_iter().map(|(name, value)| (name, value.as_bool())).collect(),
        ),
        _ => None,
    }
}

/// A name that JSON writes as it is, and that `serde_json` gives no meaning of its own: of
/// printable ASCII characters, but for the quote, the backslash and the dollar sign.
pub open spec fn plain_name(name: Seq<char>) -> bool {
    forall|i: int|
        0 <= i < name.len() ==> ' ' <= #[trigger] name[i] <= '~' && name[i] != '"' && name[i]
            != '\\' && name[i] != '$'
}

/// The JSON text of an object with one member, a boolean.
pub open spec fn object_text(name: Seq<char>, value: bool) -> Seq<char> {
    "{\""@ + name + "\":"@ + (if value {
        "true"@
    } else {
        "false"@
    }) + "}"@
}

/// Writes an object with one boolean member, as `Value::to_string` of `serde_json` writes it.
/// The claims, of a plain name: the text is the compact one, and parsing it gives the member
/// back.
#[verifier::external_body]
fn write_object(name: &str, value: bool) -> (r: String)
    requires
        plain_name(name@),
    ensures
        r@ == object_text(name@, value),
        json_object(r@) == Some(map![name@ => Some(value)]),
{
    let mut object = serde_json::Map::new();
    object.insert(name.to_owned(), serde_json::Value::Bool(value));
    serde_json::Value::Object(object).to_string()
}

/// What the members of the preferences say of keeping the system awake: it is on only where
/// the preference is there and is `true`.
pub open spec fn keep_awake_in(object: Option<Map<Seq<char>, Option<bool>>>) -> bool {
    match object {
        Some(members) => members.contains_key(KEEP_AWAKE_KEY@) && members[KEEP_AWAKE_KEY@] == Some(
            true,
        ),
        None => false,
    }
}

/// What the text of the preferences file says of keeping the system awake; off where the file
/// cannot be read.
pub open spec fn stored_keep_awake(text: Option<Seq<char>>) -> bool {
    match text {
        Some(t) => keep_awake_in(json_object(t)),
        None => false,
    }
}

/// The value of the first member of a list with this name, if it is a boolean.
pub open spec fn first_value(list: Seq<(String, Option<bool>)>, name: Seq<char>) -> Option<bool>
    decreases list.len(),
{
    if list.len() == 0 {
        None
    } else if list[0].0@ == name {
        list[0].1
    } else {
        first_value(list.skip(1), name)
    }
}

/// Where a list holds the members of an object, it has the object's value for each name.
proof fn lemma_first_value(
    list: Seq<(String, Option<bool>)>,
    object: Map<Seq<char>, Option<bool>>,
    name: Seq<char>,
)
    requires
        forall|i: int|
            0 <= i < list.len() ==> object.contains_key((#[trigger] list[i]).0@)
                && object[list[i].0@] == list[i].1,
    ensures
        first_value(list, name) is Some ==> object.contains_key(name) && object[name]
            == first_value(list, name),
        (exists|i: int| 0 <= i < list.len() && (#[trigger] list[i]).0@ == name) ==> object[name]
            == first_value(list, name),
    decreases list.len(),
{
    if list.len() > 0 {
        assert(object.contains_key(list[0].0@));
        if list[0].0@ != name {
            let rest = list.skip(1);
            assert forall|i: int| 0 <= i < rest.len() implies object.contains_key(
                (#[trigger] rest[i]).0@,
            ) && object[rest[i].0@] == rest[i].1 by {
                assert(rest[i] == list[i + 1]);
            }
            lemma_first_value(rest, object, name);
            if exists|i: int| 0 <= i < list.len() && (#[trigger] list[i]).0@ == name {
                let i = choose|i: int| 0 <= i < list.len() && (#[trigger] list[i]).0@ == name;
                assert(rest[i - 1].0@ == name);
            }
        }
    }
}

/// What parsed preferences say of keeping the system awake.
pub fn keep_awake_member(members: &Option<Vec<(String, Option<bool>)>>) -> (r: bool)
    ensures
        r == (members is Some && first_value(members->0@, KEEP_AWAKE_KEY@) == Some(true)),
{
    let list = match members {
        Some(list) => list,
        None => return false,
    };
    let mut i: usize = 0;
    assert(list@.skip(0) == list@);
    while i < list.len()
        invariant
            i <= list.len(),
            members == Some(*list),
            first_value(list@, KEEP_AWAKE_KEY@) == first_value(
                list@.skip(i as int),
                KEEP_AWAKE_KEY@,
            ),
        decreases list.len() - i,
    {
        if same_text(list[i].0.as_str(), KEEP_AWAKE_KEY) {
            return match list[i].1 {
                Some(on) => on,
                None => false,
            };
        }
        assert(list@.skip(i as int).skip(1) == list@.skip(i + 1));
        i = i + 1;
    }
    false
}

/// Reads the keep-awake preference out of the text of the preferences file, where there is
/// one.
pub fn read_keep_awake_pref(text: Option<&str>) -> (r: bool)
    ensures
        r == stored_keep_awake(
            match text {
                Some(t) => Some(t@),
                None => None,
            },
        ),
{
    match text {
        Some(t) => {
            let members = parse_object(t);
            proof {
                if members is Some {
                    lemma_first_value(members->0@, json_object(t@)->0, KEEP_AWAKE_KEY@);
                }
            }
            keep_awake_member(&members)
        },
        None => false,
    }
}

/// A file to write.
pub struct PrefWrite {
    pub path: Location<String>,
    pub text: String,
}

/// The preferences file that stores whether to keep the system awake. Reading it gives back
/// what was stored.
pub fn write_keep_awake_pref(env: &StateEnv, enabled: bool) -> (r: PrefWrite)
    ensures
        r.path.text_place() == under(state_place(*env), "desktop.json"@),
        r.text@ == object_text(KEEP_AWAKE_KEY@, enabled),
        stored_keep_awake(Some(r.text@)) == enabled,
{
    proof {
        reveal_strlit("keep_awake");
    }
    let text = write_object(KEEP_AWAKE_KEY, enabled);
    PrefWrite { path: desktop_prefs_path(env), text }
}

/// Where the state directory is, by the variables: `COWORKER_STATE_DIR` goes before all else;
/// `APPDATA` counts on Windows only, and there before the home; and without either it is below
/// the home, or below the current directory where there is no home.
pub proof fn law_state_dir(env: StateEnv)
    ensures
        env.state_dir matches Some(dir) ==> state_place(env) == (dir@, Seq::<Seq<char>>::empty()),
        env.state_dir is None && env.platform == Platform::Windows && env.appdata is Some
            ==> state_place(env) == (env.appdata->0@, seq!["coworker"@]),
        env.state_dir is None && (env.platform != Platform::Windows || env.appdata is None)
            && env.home is Some ==> state_place(env) == (
            env.home->0@,
            seq![".config"@, "coworker"@],
        ),
        env.state_dir is None && (env.platform != Platform::Windows || env.appdata is None)
            && env.home is None ==> state_place(env) == ("."@, seq![".config"@, "coworker"@]),
{
}

/// The two texts that the preferences file can be written with.
pub proof fn law_pref_texts()
    ensures
        object_text(KEEP_AWAKE_KEY@, true) == "{\"keep_awake\":true}"@,
        object_text(KEEP_AWAKE_KEY@, false) == "{\"keep_awake\":false}"@,
{
    reveal_strlit("keep_awake");
    reveal_strlit("{\"");
    reveal_strlit("\":");
    reveal_strlit("true");
    reveal_strlit("false");
    reveal_strlit("}");
    reveal_strlit("{\"keep_awake\":true}");
    reveal_strlit("{\"keep_awake\":false}");
    assert(object_text(KEEP_AWAKE_KEY@, true) =~= "{\"keep_awake\":true}"@);
    assert(object_text(KEEP_AWAKE_KEY@, false) =~= "{\"keep_awake\":false}"@);
}

/// The stored preference is on exactly if the file is a JSON object whose member `keep_awake`
/// is `true`; other members do not matter.
pub proof fn law_stored_keep_awake(
    text: Seq<char>,
    members: Map<Seq<char>, Option<bool>>,
    other: Seq<char>,
    value: Option<bool>,
)
    ensures
        !stored_keep_awake(None),
        json_object(text) is None ==> !stored_keep_awake(Some(text)),
        json_object(text) is Some ==> (stored_keep_awake(Some(text)) <==> json_object(
            text,
        )->0.contains_pair("keep_awake"@, Some(true))),
        keep_awake_in(Some(members.insert("keep_awake"@, value))) <==> value == Some(true),
        !keep_awake_in(Some(members.remove("keep_awake"@))),
        other != "keep_awake"@ ==> keep_awake_in(Some(members.insert(other, value)))
            == keep_awake_in(Some(members)),
{
}

/// The first member of a name is the one that counts; a name that no member has is not set.
pub proof fn law_first_value(
    before: Seq<(String, Option<bool>)>,
    member: (String, Option<bool>),
    after: Seq<(String, Option<bool>)>,
)
    requires
        forall|i: int| 0 <= i < before.len() ==> (#[trigger] before[i]).0@ != member.0@,
    ensures
        first_value(before, member.0@) is None,
        first_value(before + seq![member] + after, member.0@) == member.1,
    decreases before.len(),
{
    let all = before + seq![member] + after;
    if before.len() > 0 {
        let rest = before.skip(1);
        assert(before[0].0@ != member.0@);
        assert forall|i: int| 0 <= i < rest.len() implies (#[trigger] rest[i]).0@ != member.0@ by {
            assert(rest[i] == before[i + 1]);
        }
        law_first_value(rest, member, after);
        assert(all[0] == before[0]);
        assert(all.skip(1) == rest + seq![member] + after);
    }
}

} // verus!
