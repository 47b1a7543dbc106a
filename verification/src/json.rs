//! A palette as JSON: flat, one key per role.

use vstd::prelude::*;
use vstd::string::*;

use crate::palette::{
    colour_text, lemma_slots, mode_text, role_slot, role_text, slot_role, Mode, PaletteView, Role,
    WatchPalette,
};
use crate::protocol::VERSION;

verus! {

/// The outside type of a JSON value.
#[verifier::external_type_specification]
#[verifier::external_body]
pub struct ExJsonValue(serde_json::Value);

/// The outside type of the members of a JSON object.
#[verifier::external_type_specification]
#[verifier::external_body]
#[verifier::reject_recursive_types(K)]
#[verifier::reject_recursive_types(V)]
pub struct ExJsonMap<K, V>(serde_json::Map<K, V>);

/// A member of a JSON object.
pub enum JsonItem {
    Number(int),
    Text(Seq<char>),
}

/// What a map of members holds.
pub uninterp spec fn map_members(
    m: serde_json::Map<String, serde_json::Value>,
) -> Map<Seq<char>, JsonItem>;

/// The members of a JSON object.
pub uninterp spec fn object_members(v: serde_json::Value) -> Map<Seq<char>, JsonItem>;

/// An object without members.
pub open spec fn no_members() -> Map<Seq<char>, JsonItem> {
    Map::empty()
}

/// `serde_json::Map::new`: a map without members.
#[verifier::external_body]
fn new_map() -> (m: serde_json::Map<String, serde_json::Value>)
    ensures
        map_members(m) == no_members(),
{
    serde_json::Map::new()
}

/// `serde_json::Map::insert` of a number: the key's member is the number, the other members
/// stay.
#[verifier::external_body]
fn put_number(m: &mut serde_json::Map<String, serde_json::Value>, key: &str, n: u8)
    ensures
        map_members(*final(m)) == map_members(*old(m)).insert(key@, JsonItem::Number(n as int)),
{
    m.insert(key.to_string(), serde_json::Value::from(n));
}

/// `serde_json::Map::insert` of a string: the key's member is the text, the other members
/// stay.
#[verifier::external_body]
fn put_text(m: &mut serde_json::Map<String, serde_json::Value>, key: &str, text: &str)
    ensures
        map_members(*final(m)) == map_members(*old(m)).insert(key@, JsonItem::Text(text@)),
{
    m.insert(key.to_string(), serde_json::Value::from(text));
}

/// `serde_json::Value::Object`: the object with the map's members.
#[verifier::external_body]
fn object(m: serde_json::Map<String, serde_json::Value>) -> (v: serde_json::Value)
    ensures
        object_members(v) == map_members(m),
{
    serde_json::Value::Object(m)
}

/// The members for version, mode and name.
pub open spec fn head_members(p: PaletteView) -> Map<Seq<char>, JsonItem> {
    no_members().insert("version"@, JsonItem::Number(VERSION as int)).insert(
        "mode"@,
        JsonItem::Text(mode_text(p.mode)),
    ).insert("name"@, JsonItem::Text(p.name))
}

/// The members for version, mode, name and the first `n` roles.
pub open spec fn palette_members(p: PaletteView, n: nat) -> Map<Seq<char>, JsonItem>
    decreases n,
{
    if n == 0 {
        head_members(p)
    } else {
        palette_members(p, (n - 1) as nat).insert(
            role_text(slot_role(n - 1)),
            JsonItem::Text(colour_text(p.colors[n - 1])),
        )
    }
}

impl WatchPalette {
    /// The human-readable form: the version, the mode, the name, and each role's colour.
    pub fn to_json(&self) -> (v: serde_json::Value)
        ensures
            object_members(v) == palette_members(self@, Role::COUNT as nat),
    {
        let mut m = new_map();
        put_number(&mut m, "version", VERSION);
        put_text(&mut m, "mode", self.mode.as_str());
        put_text(&mut m, "name", self.name.as_str());
        let mut i: usize = 0;
        while i < 14
            invariant
                i <= 14,
                self@.colors.len() == 14,
                map_members(m) == palette_members(self@, i as nat),
            decreases 14 - i,
        {
            let hex = self.colors[i].to_hex();
            put_text(&mut m, Role::ALL[i].name(), hex.as_str());
            i += 1;
        }
        object(m)
    }
}

/// What tells the names of members apart.
spec fn name_tag(s: Seq<char>) -> (nat, char, char) {
    (s.len(), s[0], s[2])
}

proof fn lemma_member_names(r: Role, q: Role)
    ensures
        role_text(r) == role_text(q) ==> r == q,
        role_text(r) != "version"@,
        role_text(r) != "mode"@,
        role_text(r) != "name"@,
        "version"@ != "mode"@ && "version"@ != "name"@ && "mode"@ != "name"@,
{
    reveal_strlit("background");
    reveal_strlit("surface");
    reveal_strlit("surface_alt");
    reveal_strlit("text_primary");
    reveal_strlit("text_secondary");
    reveal_strlit("text_disabled");
    reveal_strlit("accent");
    reveal_strlit("on_accent");
    reveal_strlit("selection");
    reveal_strlit("divider");
    reveal_strlit("danger");
    reveal_strlit("warning");
    reveal_strlit("success");
    reveal_strlit("info");
    reveal_strlit("version");
    reveal_strlit("mode");
    reveal_strlit("name");
    assert(name_tag("version"@) == (7nat, 'v', 'r'));
    assert(name_tag("mode"@) == (4nat, 'm', 'd'));
    assert(name_tag("name"@) == (4nat, 'n', 'm'));
    assert(name_tag(role_text(r)) == name_tag(role_text(q)) ==> r == q);
}

proof fn lemma_members(p: PaletteView, n: nat, slot: int)
    requires
        n <= Role::COUNT,
        0 <= slot < Role::COUNT,
    ensures
        ({
            let m = palette_members(p, n);
            &&& m.contains_key("version"@) && m["version"@] == JsonItem::Number(1)
            &&& m.contains_key("mode"@) && m["mode"@] == JsonItem::Text(mode_text(p.mode))
            &&& m.contains_key("name"@) && m["name"@] == JsonItem::Text(p.name)
            &&& slot < n ==> m.contains_key(role_text(slot_role(slot)))
                && m[role_text(slot_role(slot))] == JsonItem::Text(colour_text(p.colors[slot]))
        }),
    decreases n,
{
    lemma_member_names(Role::Background, Role::Background);
    if n > 0 {
        lemma_members(p, (n - 1) as nat, slot);
        lemma_member_names(slot_role(n - 1), slot_role(slot));
        lemma_slots(Role::Background, slot);
        lemma_slots(Role::Background, n - 1);
    }
}

/// The human-readable form of a palette has the version 1, the mode and the name, and under each
/// role's name that role's colour.
pub proof fn lemma_json_is_the_palette(p: &WatchPalette, v: serde_json::Value, role: Role)
    requires
        call_ensures(WatchPalette::to_json, (p,), v),
    ensures
        object_members(v).contains_key("version"@),
        object_members(v)["version"@] == JsonItem::Number(1),
        object_members(v).contains_key("mode"@),
        p.mode == Mode::Light ==> object_members(v)["mode"@] == JsonItem::Text("light"@),
        p.mode == Mode::Dark ==> object_members(v)["mode"@] == JsonItem::Text("dark"@),
        object_members(v).contains_key("name"@),
        object_members(v)["name"@] == JsonItem::Text(p.name@),
        object_members(v).contains_key(role_text(role)),
        object_members(v)[role_text(role)] == JsonItem::Text(colour_text(p@.colour(role))),
{
    lemma_slots(role, 0);
    lemma_members(p@, Role::COUNT as nat, role_slot(role));
}

} // verus!
