use uuid::Uuid;
use vstd::prelude::*;

verus! {

#[verifier::external_type_specification]
#[verifier::external_body]
pub struct ExUuid(Uuid);

/// Relies on uuid's `Uuid::new_v4`: a fresh random identifier drawn from the operating
/// system's random source (which panics only if that source fails). Nothing is promised
/// of its value.
pub assume_specification[ Uuid::new_v4 ]() -> Uuid;

/// What `str::to_lowercase` gives for a text: a function of the characters alone.
pub uninterp spec fn lower_of(s: Seq<char>) -> Seq<char>;

/// Whether a character has the Unicode `White_Space` property, the test that
/// `str::split_whitespace` splits on: tab through carriage return, space, next line,
/// no-break space, ogham space mark, en quad through hair space, line and paragraph
/// separators, narrow no-break space, medium mathematical space and ideographic space.
pub open spec fn white_space(c: char) -> bool {
    let u = c as u32;
    (0x09 <= u <= 0x0D) || u == 0x20 || u == 0x85 || u == 0xA0 || u == 0x1680 || (0x2000 <= u
        <= 0x200A) || u == 0x2028 || u == 0x2029 || u == 0x202F || u == 0x205F || u == 0x3000
}

/// Relies on `str::to_lowercase`: the lowercase form of the text.
#[verifier::external_body]
fn lowercase(s: &str) -> (r: String)
    ensures
        r@ == lower_of(s@),
{
    s.to_lowercase()
}

/// Relies on `str::split_whitespace`: the pieces between runs of `White_Space`
/// characters, joined again, are the text without those characters.
#[verifier::external_body]
fn strip_whitespace(s: &str) -> (r: String)
    ensures
        r@ == s@.filter(|c: char| !white_space(c)),
{
    s.split_whitespace().collect()
}

/// The lookup key of a display name: lowercased, with every whitespace character removed.
pub open spec fn normalized(name: Seq<char>) -> Seq<char> {
    lower_of(name).filter(|c: char| !white_space(c))
}

/// What an identity holds: its name, its key and its unique id.
pub struct IdentView {
    pub name: Seq<char>,
    pub key: Seq<char>,
    pub uuid: Uuid,
}

/// The human name of an entity, its lookup key, and a random unique id.
#[derive(Debug)]
pub struct Ident {
    name: String,
    refer: String,
    pub uuidv4: Uuid,
}

impl View for Ident {
    type V = IdentView;

    closed spec fn view(&self) -> IdentView {
        IdentView { name: self.name@, key: self.refer@, uuid: self.uuidv4 }
    }
}

/// The id that stands in for a random one where only names and keys are compared.
pub open spec fn blank_id() -> Uuid {
    arbitrary()
}

/// The shape of an identity named `name`: its name and key, with the id blanked.
pub open spec fn ident_named(name: Seq<char>) -> IdentView {
    IdentView { name, key: normalized(name), uuid: blank_id() }
}

/// An identity with its random id blanked, so that it compares by name and key alone.
pub open spec fn ident_shape(v: IdentView) -> IdentView {
    IdentView { name: v.name, key: v.key, uuid: blank_id() }
}

/// An identity named `name` whose id is `uuid`.
pub open spec fn ident_with(name: Seq<char>, uuid: Uuid) -> IdentView {
    IdentView { name, key: normalized(name), uuid }
}

impl Ident {
    /// The random id, fixed when the identity is made.
    pub open spec fn unique_id(&self) -> Uuid {
        self@.uuid
    }

    /// The key is always the normalized form of the current name.
    pub open spec fn wf(&self) -> bool {
        self@.key == normalized(self@.name)
    }

    /// A new identity with a fresh random id.
    pub fn new(name: String) -> (r: Ident)
        ensures
            ident_shape(r@) == ident_named(name@),
            r.wf(),
    {
        let refer = Self::create_refer(name.as_str());
        Ident { name, refer, uuidv4: Uuid::new_v4() }
    }

    /// An identity with a given id, as when it is read back from storage; the key is
    /// computed afresh from the name.
    pub fn with_id(name: String, uuidv4: Uuid) -> (r: Ident)
        ensures
            r@ == ident_with(name@, uuidv4),
            r.wf(),
    {
        let refer = Self::create_refer(name.as_str());
        Ident { name, refer, uuidv4 }
    }

    /// The lookup key of a display name.
    pub fn create_refer(name: &str) -> (r: String)
        ensures
            r@ == normalized(name@),
    {
        let lowered = lowercase(name);
        strip_whitespace(lowered.as_str())
    }

    /// Renames the entity and recomputes its key; the unique id stays.
    pub fn update(&mut self, name: String)
        ensures
            final(self)@ == ident_with(name@, old(self)@.uuid),
            final(self).wf(),
    {
        self.refer = Self::create_refer(name.as_str());
        self.name = name;
    }

    pub fn name(&self) -> (r: &String)
        ensures
            r@ == self@.name,
    {
        &self.name
    }

    pub fn key(&self) -> (r: &String)
        ensures
            r@ == self@.key,
    {
        &self.refer
    }
}

/// The key that an identity holds equals the key computed afresh from its current
/// name, whenever it is computed.
pub proof fn lemma_key_is_recomputable(id: Ident, fresh: Seq<char>)
    requires
        id.wf(),
        fresh == normalized(id@.name),
    ensures
        id@.key == fresh,
{
}

} // verus!
