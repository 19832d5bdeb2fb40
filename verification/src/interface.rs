//! Interface descriptors: what a declared interface is, and the rules that a
//! declaration has to meet before anything is generated from it.

use crate::iid::{spec_parse, Iid, IidError};
use crate::text::{hex_text, push_hex, to_hex, to_upper, upper};
use vstd::prelude::*;
use vstd::string::*;

verus! {

/// A place in the source text, as whoever read the text names it. The
/// library hands places back as it got them.
#[derive(Clone, Copy, Debug, PartialEq, Eq, Structural)]
pub struct Location {
    pub line: usize,
    pub column: usize,
}

/// What follows the name of an annotation.
#[derive(Clone, Debug, PartialEq, Eq)]
pub enum AttributeInput {
    /// Nothing: `#[name]`.
    Empty,
    /// Parentheses, with the tokens written between them: `#[name(tokens)]`.
    /// `literal` is the value of those tokens where whoever read them found
    /// them to be one string literal.
    Parenthesized { tokens: String, literal: Option<String> },
    /// Anything else, as written: `#[name = "value"]`.
    Other(String),
}

/// An annotation in front of a declaration.
#[derive(Clone, Debug, PartialEq, Eq)]
pub struct Attribute {
    pub name: String,
    pub input: AttributeInput,
    pub location: Location,
}

/// One method of an interface: its name, and its declaration as written.
#[derive(Clone, Debug, PartialEq, Eq)]
pub struct Method {
    pub name: String,
    pub declaration: String,
}

/// An interface declaration as it stands in the source: annotations, a
/// visibility, the declaration keyword, a name, an optional parent and the
/// methods between the braces.
#[derive(Clone, Debug, PartialEq, Eq)]
pub struct Declaration {
    pub attributes: Vec<Attribute>,
    /// The visibility modifier as written; empty where there is none.
    pub visibility: String,
    /// Where the declaration keyword stands.
    pub keyword: Location,
    pub name: String,
    /// Where the name stands.
    pub name_location: Location,
    pub parent: Option<String>,
    /// Where the parent stands; of no meaning where there is none.
    pub parent_location: Location,
    pub methods: Vec<Method>,
}

/// Why a declaration is refused. Nothing is generated from a refused declaration.
#[derive(Clone, Debug, PartialEq, Eq)]
pub enum ParseError {
    /// An annotation that is neither a description nor an identity.
    UnrecognizedAttribute { name: String, location: Location },
    /// An identity annotation that is not of the form `#[uuid(..)]`.
    IdentityNotParenthesized { location: Location },
    /// An identity annotation whose argument is not one string literal.
    IdentityNotStringLiteral { location: Location },
    /// An identity annotation whose string is not a 128-bit identity.
    MalformedIdentity { error: IidError, location: Location },
    /// A second identity annotation.
    DuplicateIdentity { location: Location },
    /// No identity annotation at all.
    MissingIdentity { interface: String, location: Location },
    /// A visibility that holds more than names, spaces, parentheses and
    /// colons. The place is that of the declaration keyword, which the
    /// visibility stands in front of.
    InvalidVisibility { visibility: String, location: Location },
    /// A name that would break the text of the handle type: it holds more
    /// than letters, digits and underscores.
    InvalidName { name: String, location: Location },
    /// An interface other than the root that names no parent.
    MissingParent { interface: String, location: Location },
    /// The root interface with a parent.
    RootWithParent { parent: String, location: Location },
}

/// A validated interface descriptor.
pub struct Interface {
    pub iid: Iid,
    pub visibility: String,
    pub name: String,
    pub parent: Option<String>,
    pub items: Vec<Method>,
    /// The descriptions, in the order in which they were written.
    pub docs: Vec<Attribute>,
}

/// The longest text that is read as a string literal, in characters.
pub const MAX_LITERAL_LEN: usize = 256;

/// Whether a text is handed on to be read as a string literal: it is not
/// empty and no longer than `MAX_LITERAL_LEN`, starts as a string literal
/// does, with a double quote or with the `r` of a raw string, and holds no
/// carriage return.
pub open spec fn may_be_literal(tokens: Seq<char>) -> bool {
    &&& 0 < tokens.len() <= MAX_LITERAL_LEN
    &&& (tokens[0] == '"' || tokens[0] == 'r')
    &&& forall|i: int| 0 <= i < tokens.len() ==> (#[trigger] tokens[i]) != '\r'
}

/// Calls `syn::parse_str::<syn::LitStr>` on the text and, where that gives a
/// literal, `syn::LitStr::value` on it, which turns the literal into its
/// value. Nothing is proved of the call and nothing is claimed of what it
/// gives back: which lexer reads the text depends on the process.
///
/// What is asked of the text keeps the call from panicking. `syn` panics on
/// a token that the lexer takes for a literal and that `syn` knows no kind
/// for, a C string for one; a text that starts with a double quote or with
/// `r` gives a string literal, a name or an error. `syn` walks nested
/// brackets by recursion; the length bounds their depth. A carriage return
/// is read differently by the lexers there are.
#[verifier::external_body]
fn literal_value(tokens: &str) -> (r: Option<String>)
    requires
        may_be_literal(tokens@),
{
    match syn::parse_str::<syn::LitStr>(tokens) {
        Ok(literal) => Some(literal.value()),
        Err(_) => None,
    }
}

/// Whether a character counts as a letter of a name: an ASCII letter, an
/// underscore, or any character beyond ASCII. Which characters beyond ASCII
/// the source language takes for letters is left to whoever read the name.
pub open spec fn is_name_start(c: char) -> bool {
    ('a' <= c && c <= 'z') || ('A' <= c && c <= 'Z') || c == '_' || c as u32 >= 128
}

/// Whether a character can stand in a name: a letter of a name or an ASCII
/// digit.
pub open spec fn is_name_char(c: char) -> bool {
    is_name_start(c) || ('0' <= c && c <= '9')
}

/// Whether a character can stand in a visibility modifier such as `pub`,
/// `pub(crate)` or `pub(in a::r#b)`: a character of a name, the `#` of a raw
/// name, a space, a round bracket or a colon.
pub open spec fn is_visibility_char(c: char) -> bool {
    is_name_char(c) || c == '#' || c == ' ' || c == '(' || c == ')' || c == ':'
}

/// Whether a text holds nothing but what can stand in a visibility
/// modifier. The empty text, for no modifier, does.
pub open spec fn is_visibility_text(s: Seq<char>) -> bool {
    forall|i: int| 0 <= i < s.len() ==> is_visibility_char(#[trigger] s[i])
}

/// A name without the `r#` that marks it as raw.
pub open spec fn plain_name(s: Seq<char>) -> Seq<char> {
    if s.len() >= 2 && s[0] == 'r' && s[1] == '#' {
        s.subrange(2, s.len() as int)
    } else {
        s
    }
}

/// Whether a text is a word that the source language keeps for itself, and
/// that can be a name only with the mark of a raw name.
pub open spec fn is_reserved_word(s: Seq<char>) -> bool {
    s == "abstract"@
        || s == "as"@
        || s == "become"@
        || s == "box"@
        || s == "break"@
        || s == "const"@
        || s == "continue"@
        || s == "crate"@
        || s == "do"@
        || s == "else"@
        || s == "enum"@
        || s == "extern"@
        || s == "false"@
        || s == "final"@
        || s == "fn"@
        || s == "for"@
        || s == "if"@
        || s == "impl"@
        || s == "in"@
        || s == "let"@
        || s == "loop"@
        || s == "macro"@
        || s == "match"@
        || s == "mod"@
        || s == "move"@
        || s == "mut"@
        || s == "override"@
        || s == "priv"@
        || s == "pub"@
        || s == "ref"@
        || s == "return"@
        || s == "Self"@
        || s == "self"@
        || s == "static"@
        || s == "struct"@
        || s == "super"@
        || s == "trait"@
        || s == "true"@
        || s == "type"@
        || s == "typeof"@
        || s == "unsafe"@
        || s == "unsized"@
        || s == "use"@
        || s == "virtual"@
        || s == "where"@
        || s == "while"@
        || s == "yield"@
}

/// Whether a text can stand as the name of the handle type without
/// breaking the text around it: it is no reserved word, and after an `r#`,
/// if there is one, it is not empty, holds characters of a name only, does
/// not start with a digit and is not the underscore alone.
pub open spec fn is_name_text(s: Seq<char>) -> bool {
    let p = plain_name(s);
    &&& p.len() > 0
    &&& is_name_start(p[0])
    &&& forall|i: int| 0 <= i < p.len() ==> is_name_char(#[trigger] p[i])
    &&& !(p.len() == 1 && p[0] == '_')
    &&& !is_reserved_word(s)
}

/// The input of an annotation with parentheses around `tokens`, where
/// reading the tokens as a string literal gave `read`: the literal is kept
/// only for tokens that may be a literal.
pub open spec fn parenthesized_with(tokens: String, read: Option<String>) -> AttributeInput {
    AttributeInput::Parenthesized {
        tokens,
        literal: if may_be_literal(tokens@) {
            read
        } else {
            None
        },
    }
}

/// The name of the root interface.
pub open spec fn root_name() -> Seq<char> {
    "IUnknown"@
}

/// Whether the annotation is a description.
pub open spec fn is_doc(a: Attribute) -> bool {
    a.name@ == "doc"@
}

/// Whether the annotation is an identity.
pub open spec fn is_uuid(a: Attribute) -> bool {
    a.name@ == "uuid"@
}

/// The identity that the string `text` of the annotation at `location` denotes.
pub open spec fn identity_of_text(text: Seq<char>, location: Location) -> Result<Iid, ParseError> {
    match spec_parse(text) {
        Ok(iid) => Ok(iid),
        Err(error) => Err(ParseError::MalformedIdentity { error, location }),
    }
}

/// The identity that an identity annotation gives.
pub open spec fn identity_of(a: Attribute) -> Result<Iid, ParseError> {
    match a.input {
        AttributeInput::Parenthesized { literal, .. } => match literal {
            Some(text) => identity_of_text(text@, a.location),
            None => Err(ParseError::IdentityNotStringLiteral { location: a.location }),
        },
        _ => Err(ParseError::IdentityNotParenthesized { location: a.location }),
    }
}

/// What a run of annotations holds: the identity, if one was given, and the
/// descriptions in their order.
pub struct Annotations {
    pub iid: Option<Iid>,
    pub docs: Seq<Attribute>,
}

/// Reads the annotations from first to last and stops at the first that is
/// refused.
pub open spec fn scan(attributes: Seq<Attribute>) -> Result<Annotations, ParseError>
    decreases attributes.len(),
{
    if attributes.len() == 0 {
        Ok(Annotations { iid: None, docs: Seq::empty() })
    } else {
        let a = attributes.last();
        match scan(attributes.drop_last()) {
            Err(e) => Err(e),
            Ok(seen) => if is_doc(a) {
                Ok(Annotations { iid: seen.iid, docs: seen.docs.push(a) })
            } else if is_uuid(a) {
                match identity_of(a) {
                    Err(e) => Err(e),
                    Ok(iid) => if seen.iid is Some {
                        Err(ParseError::DuplicateIdentity { location: a.location })
                    } else {
                        Ok(Annotations { iid: Some(iid), docs: seen.docs })
                    },
                }
            } else {
                Err(ParseError::UnrecognizedAttribute { name: a.name, location: a.location })
            },
        }
    }
}

/// The refusal that the heading of a declaration gives, once its
/// annotations are read without refusal and have or have not given an
/// identity.
pub open spec fn heading_refusal_of(d: Declaration, has_identity: bool) -> Option<ParseError> {
    if !is_visibility_text(d.visibility@) {
        Some(ParseError::InvalidVisibility { visibility: d.visibility, location: d.keyword })
    } else if !has_identity {
        Some(ParseError::MissingIdentity { interface: d.name, location: d.keyword })
    } else if !is_name_text(d.name@) {
        Some(ParseError::InvalidName { name: d.name, location: d.name_location })
    } else if d.name@ != root_name() && d.parent is None {
        Some(ParseError::MissingParent { interface: d.name, location: d.name_location })
    } else if d.name@ == root_name() && d.parent is Some {
        Some(ParseError::RootWithParent { parent: d.parent->Some_0, location: d.name_location })
    } else {
        None
    }
}

/// The reason for which a declaration is refused, if it is: the first
/// refusal among its annotations, or else that of its heading.
pub open spec fn refusal(d: Declaration) -> Option<ParseError> {
    match scan(d.attributes@) {
        Err(e) => Some(e),
        Ok(seen) => heading_refusal_of(d, seen.iid is Some),
    }
}

/// An annotation as source text.
pub open spec fn attribute_text(a: Attribute) -> Seq<char> {
    match a.input {
        AttributeInput::Empty => "#["@ + a.name@ + "]"@,
        AttributeInput::Parenthesized { tokens, .. } => "#["@ + a.name@ + "("@ + tokens@ + ")]"@,
        AttributeInput::Other(tokens) => "#["@ + a.name@ + " "@ + tokens@ + "]"@,
    }
}

/// Annotations as source text, one on each line.
pub open spec fn attributes_text(attributes: Seq<Attribute>) -> Seq<char>
    decreases attributes.len(),
{
    if attributes.len() == 0 {
        Seq::empty()
    } else {
        attributes_text(attributes.drop_last()) + attribute_text(attributes.last()) + "\n"@
    }
}

/// The name of the type of the vtable-pointer slot of the interface `name`.
pub open spec fn vptr_name(name: Seq<char>) -> Seq<char> {
    name + "VPtr"@
}

/// The name of the identity constant of the interface `name`: `IID_` and
/// the name in capitals, without the mark of a raw name.
pub open spec fn iid_name(name: Seq<char>) -> Seq<char> {
    "IID_"@ + upper(plain_name(name))
}

/// The declaration of the handle type of an interface: its descriptions, and
/// a struct of the interface's name and visibility whose one field is a
/// non-null pointer to a vtable-pointer slot.
pub open spec fn struct_text(docs: Seq<Attribute>, visibility: Seq<char>, name: Seq<char>) -> Seq<
    char,
> {
    attributes_text(docs) + "#[repr(transparent)]\n#[derive(Copy, Clone, Debug)]\n"@ + visibility
        + (if visibility.len() == 0 {
        Seq::empty()
    } else {
        " "@
    }) + "struct "@ + name + " {\n    inner: ::std::ptr::NonNull<"@ + vptr_name(name) + ">,\n}\n"@
}

/// Byte number `k` of the sixteen digits `digits`, as an element of a list.
pub open spec fn byte_text(digits: Seq<char>, k: int) -> Seq<char> {
    (if k == 0 {
        "0x"@
    } else {
        ", 0x"@
    }) + digits.subrange(2 * k, 2 * k + 2)
}

/// The first `n` bytes of the sixteen digits `digits`, as a list.
pub open spec fn bytes_text(digits: Seq<char>, n: int) -> Seq<char>
    decreases n,
{
    if n <= 0 {
        Seq::empty()
    } else {
        bytes_text(digits, n - 1) + byte_text(digits, n - 1)
    }
}

/// The declaration of the identity constant of the interface `name`, in the
/// platform's native representation.
pub open spec fn iid_text(name: Seq<char>, iid: Iid) -> Seq<char> {
    "#[allow(missing_docs)]\npub const "@ + iid_name(name)
        + ": com::iid::Guid = com::iid::Guid { data1: 0x"@ + hex_text(iid.data1 as nat, 8)
        + ", data2: 0x"@ + hex_text(iid.data2 as nat, 4) + ", data3: 0x"@ + hex_text(
        iid.data3 as nat,
        4,
    ) + ", data4: ["@ + bytes_text(hex_text(iid.data4 as nat, 16), 8) + "] };\n"@
}

fn is_letter_of_name(c: char) -> (r: bool)
    ensures
        r == is_name_start(c),
{
    ('a' <= c && c <= 'z') || ('A' <= c && c <= 'Z') || c == '_' || c as u32 >= 128
}

fn is_char_of_name(c: char) -> (r: bool)
    ensures
        r == is_name_char(c),
{
    is_letter_of_name(c) || ('0' <= c && c <= '9')
}

/// Whether a text is handed on to be read as a string literal.
pub fn may_read_literal(tokens: &str) -> (r: bool)
    ensures
        r == may_be_literal(tokens@),
{
    let n: usize = tokens.unicode_len();
    if n == 0 || n > MAX_LITERAL_LEN {
        return false;
    }
    let first: char = tokens.get_char(0);
    if !(first == '"' || first == 'r') {
        return false;
    }
    let mut i: usize = 0;
    while i < n
        invariant
            i <= n,
            n == tokens@.len(),
            forall|k: int| 0 <= k < i ==> (#[trigger] tokens@[k]) != '\r',
        decreases n - i,
    {
        if tokens.get_char(i) == '\r' {
            return false;
        }
        i = i + 1;
    }
    true
}

fn same_text(a: &str, b: &str) -> (r: bool)
    ensures
        r == (a@ == b@),
{
    let x: String = String::from_str(a);
    let y: String = String::from_str(b);
    x == y
}

/// Whether a text is a word that the source language keeps for itself.
pub fn is_reserved(name: &str) -> (r: bool)
    ensures
        r == is_reserved_word(name@),
{
    same_text(name, "abstract")
        || same_text(name, "as")
        || same_text(name, "become")
        || same_text(name, "box")
        || same_text(name, "break")
        || same_text(name, "const")
        || same_text(name, "continue")
        || same_text(name, "crate")
        || same_text(name, "do")
        || same_text(name, "else")
        || same_text(name, "enum")
        || same_text(name, "extern")
        || same_text(name, "false")
        || same_text(name, "final")
        || same_text(name, "fn")
        || same_text(name, "for")
        || same_text(name, "if")
        || same_text(name, "impl")
        || same_text(name, "in")
        || same_text(name, "let")
        || same_text(name, "loop")
        || same_text(name, "macro")
        || same_text(name, "match")
        || same_text(name, "mod")
        || same_text(name, "move")
        || same_text(name, "mut")
        || same_text(name, "override")
        || same_text(name, "priv")
        || same_text(name, "pub")
        || same_text(name, "ref")
        || same_text(name, "return")
        || same_text(name, "Self")
        || same_text(name, "self")
        || same_text(name, "static")
        || same_text(name, "struct")
        || same_text(name, "super")
        || same_text(name, "trait")
        || same_text(name, "true")
        || same_text(name, "type")
        || same_text(name, "typeof")
        || same_text(name, "unsafe")
        || same_text(name, "unsized")
        || same_text(name, "use")
        || same_text(name, "virtual")
        || same_text(name, "where")
        || same_text(name, "while")
        || same_text(name, "yield")
}

/// A name without the `r#` that marks it as raw.
pub fn without_raw_mark(name: &str) -> (r: &str)
    ensures
        r@ == plain_name(name@),
{
    let n: usize = name.unicode_len();
    if n >= 2 && name.get_char(0) == 'r' && name.get_char(1) == '#' {
        name.substring_char(2, n)
    } else {
        name
    }
}

/// Whether a text can stand as the name of the handle type without
/// breaking the text around it.
pub fn is_identifier(name: &str) -> (r: bool)
    ensures
        r == is_name_text(name@),
{
    if is_reserved(name) {
        return false;
    }
    let plain: &str = without_raw_mark(name);
    let n: usize = plain.unicode_len();
    if n == 0 {
        return false;
    }
    let first: char = plain.get_char(0);
    if !is_letter_of_name(first) {
        return false;
    }
    if n == 1 && first == '_' {
        return false;
    }
    let mut i: usize = 0;
    while i < n
        invariant
            i <= n,
            n == plain@.len(),
            plain@ == plain_name(name@),
            !is_reserved_word(name@),
            forall|k: int| 0 <= k < i ==> is_name_char(#[trigger] plain@[k]),
        decreases n - i,
    {
        if !is_char_of_name(plain.get_char(i)) {
            assert(!is_name_char(plain@[i as int]));
            return false;
        }
        i = i + 1;
    }
    true
}

/// Whether a text holds nothing but what can stand in a visibility modifier.
pub fn is_visibility(text: &str) -> (r: bool)
    ensures
        r == is_visibility_text(text@),
{
    let n: usize = text.unicode_len();
    let mut i: usize = 0;
    while i < n
        invariant
            i <= n,
            n == text@.len(),
            forall|k: int| 0 <= k < i ==> is_visibility_char(#[trigger] text@[k]),
        decreases n - i,
    {
        let c: char = text.get_char(i);
        if !(is_char_of_name(c) || c == '#' || c == ' ' || c == '(' || c == ')' || c == ':') {
            return false;
        }
        i = i + 1;
    }
    true
}

fn text_is(s: &String, literal: &str) -> (r: bool)
    ensures
        r == (s@ == literal@),
{
    let t: String = String::from_str(literal);
    *s == t
}

impl AttributeInput {
    /// The input of an annotation with parentheses around `tokens`, where
    /// reading the tokens as a string literal gave `read`. The tokens are
    /// kept as they are; what was read is kept only for tokens that may be a
    /// literal.
    pub fn with_literal(tokens: String, read: Option<String>) -> (r: AttributeInput)
        ensures
            r == parenthesized_with(tokens, read),
    {
        let literal: Option<String> = if may_read_literal(tokens.as_str()) {
            read
        } else {
            None
        };
        AttributeInput::Parenthesized { tokens, literal }
    }

    /// The input of an annotation with parentheses, from the tokens written
    /// between them. Tokens that may be a string literal are handed, whole
    /// and unchanged, to `syn` to be read as one, and the input is made of
    /// the tokens and of what came back. For any other tokens nothing is
    /// handed on, and the input has no literal.
    pub fn parenthesized(tokens: String) -> (r: AttributeInput)
        ensures
            exists|read: Option<String>| r == #[trigger] parenthesized_with(tokens, read),
            !may_be_literal(tokens@) ==> r == parenthesized_with(tokens, None),
    {
        let read: Option<String> = if may_read_literal(tokens.as_str()) {
            literal_value(tokens.as_str())
        } else {
            None
        };
        let r = AttributeInput::with_literal(tokens, read);
        assert(r == parenthesized_with(tokens, read));
        r
    }

    /// A copy of the input.
    pub fn duplicate(&self) -> (r: AttributeInput)
        ensures
            r == *self,
    {
        match self {
            AttributeInput::Empty => AttributeInput::Empty,
            AttributeInput::Parenthesized { tokens, literal } => AttributeInput::Parenthesized {
                tokens: tokens.clone(),
                literal: match literal {
                    Some(text) => Some(text.clone()),
                    None => None,
                },
            },
            AttributeInput::Other(tokens) => AttributeInput::Other(tokens.clone()),
        }
    }
}

impl Attribute {
    /// A copy of the annotation.
    pub fn duplicate(&self) -> (r: Attribute)
        ensures
            r == *self,
    {
        Attribute {
            name: self.name.clone(),
            input: self.input.duplicate(),
            location: self.location,
        }
    }

    /// The identity that an identity annotation gives if the tokens between
    /// its parentheses have the value `literal`, or none.
    pub fn identity_from(&self, literal: Option<String>) -> (r: Result<Iid, ParseError>)
        ensures
            r == match self.input {
                AttributeInput::Parenthesized { .. } => match literal {
                    Some(text) => identity_of_text(text@, self.location),
                    None => Err(ParseError::IdentityNotStringLiteral { location: self.location }),
                },
                _ => Err(ParseError::IdentityNotParenthesized { location: self.location }),
            },
    {
        match &self.input {
            AttributeInput::Parenthesized { .. } => match literal {
                Some(text) => match Iid::parse(text.as_str()) {
                    Ok(iid) => Ok(iid),
                    Err(error) => Err(
                        ParseError::MalformedIdentity { error, location: self.location },
                    ),
                },
                None => Err(ParseError::IdentityNotStringLiteral { location: self.location }),
            },
            _ => Err(ParseError::IdentityNotParenthesized { location: self.location }),
        }
    }

    /// The identity that this identity annotation gives: that of the
    /// literal between its parentheses. An annotation without parentheses
    /// gives `IdentityNotParenthesized`, one without a literal
    /// `IdentityNotStringLiteral`, and one whose literal is no identity
    /// `MalformedIdentity`.
    pub fn identity(&self) -> (r: Result<Iid, ParseError>)
        ensures
            r == identity_of(*self),
    {
        match &self.input {
            AttributeInput::Parenthesized { literal, .. } => match literal {
                Some(text) => self.identity_from(Some(text.clone())),
                None => self.identity_from(None),
            },
            _ => self.identity_from(None),
        }
    }
}

impl Attribute {
    /// The annotation as source text.
    pub fn to_text(&self) -> (r: String)
        ensures
            r@ == attribute_text(*self),
    {
        let mut out: String = String::from_str("#[");
        out.append(self.name.as_str());
        match &self.input {
            AttributeInput::Empty => {
                out.append("]");
            },
            AttributeInput::Parenthesized { tokens, .. } => {
                out.append("(");
                out.append(tokens.as_str());
                out.append(")]");
            },
            AttributeInput::Other(tokens) => {
                out.append(" ");
                out.append(tokens.as_str());
                out.append("]");
            },
        }
        out
    }
}

impl Iid {
    /// The declaration of the identity constant of the interface `name`.
    pub fn to_tokens(&self, name: &str) -> (r: String)
        ensures
            r@ == iid_text(name@, *self),
    {
        let mut constant: String = String::from_str("IID_");
        let capitals: String = to_upper(without_raw_mark(name));
        constant.append(capitals.as_str());
        let mut out: String = String::from_str("#[allow(missing_docs)]\npub const ");
        out.append(constant.as_str());
        out.append(": com::iid::Guid = com::iid::Guid { data1: 0x");
        push_hex(&mut out, self.data1 as u64, 8);
        out.append(", data2: 0x");
        push_hex(&mut out, self.data2 as u64, 4);
        out.append(", data3: 0x");
        push_hex(&mut out, self.data3 as u64, 4);
        out.append(", data4: [");
        let digits: String = to_hex(self.data4, 16);
        let mut bytes: String = String::new();
        let mut k: usize = 0;
        while k < 8
            invariant
                k <= 8,
                digits@.len() == 16,
                bytes@ == bytes_text(digits@, k as int),
            decreases 8 - k,
        {
            let mut piece: String = if k == 0 {
                String::from_str("0x")
            } else {
                String::from_str(", 0x")
            };
            piece.append(digits.as_str().substring_char(2 * k, 2 * k + 2));
            bytes.append(piece.as_str());
            k = k + 1;
        }
        out.append(bytes.as_str());
        out.append("] };\n");
        out
    }
}

/// What is reported for a refused declaration.
pub open spec fn message_text(e: ParseError) -> Seq<char> {
    match e {
        ParseError::UnrecognizedAttribute { name, .. } => "Unrecognized attribute '"@ + name@
            + "'"@,
        ParseError::IdentityNotParenthesized { .. } => "uuids must be written as '#[uuid(\"$IID\")]'"@,
        ParseError::IdentityNotStringLiteral { .. } => "uuids must be string literals"@,
        ParseError::MalformedIdentity { error: IidError::WrongGrouping, .. } =>
            "uuids must be five groups of 8, 4, 4, 4 and 12 hexadecimal digits"@,
        ParseError::MalformedIdentity { error: IidError::NonHexDigit { .. }, .. } =>
            "uuids must hold hexadecimal digits only"@,
        ParseError::DuplicateIdentity { .. } => "Interfaces must have one '#[uuid(\"$IID\")]' attribute only"@,
        ParseError::MissingIdentity { interface, .. } => "Interface `"@ + interface@
            + "` must have a '#[uuid(\"$IID\")]' attribute"@,
        ParseError::InvalidVisibility { visibility, .. } => "Visibility `"@ + visibility@
            + "` must hold names, spaces, parentheses and colons only"@,
        ParseError::InvalidName { name, .. } => "Interface name `"@ + name@
            + "` must be one name of letters, digits and underscores"@,
        ParseError::MissingParent { interface, .. } =>
            "Interfaces must inherit from another interface like so: `interface "@ + interface@
                + ": IParentInterface`"@,
        ParseError::RootWithParent { parent, .. } => "IUnknown must not inherit from `"@ + parent@
            + "`"@,
    }
}

/// The place in the source that a refusal points to.
pub open spec fn location_of(e: ParseError) -> Location {
    match e {
        ParseError::UnrecognizedAttribute { location, .. } => location,
        ParseError::IdentityNotParenthesized { location } => location,
        ParseError::IdentityNotStringLiteral { location } => location,
        ParseError::MalformedIdentity { location, .. } => location,
        ParseError::DuplicateIdentity { location } => location,
        ParseError::MissingIdentity { location, .. } => location,
        ParseError::InvalidVisibility { location, .. } => location,
        ParseError::InvalidName { location, .. } => location,
        ParseError::MissingParent { location, .. } => location,
        ParseError::RootWithParent { location, .. } => location,
    }
}

impl ParseError {
    /// What is reported for the refusal.
    pub fn message(&self) -> (r: String)
        ensures
            r@ == message_text(*self),
    {
        match self {
            ParseError::UnrecognizedAttribute { name, .. } => {
                let mut out: String = String::from_str("Unrecognized attribute '");
                out.append(name.as_str());
                out.append("'");
                out
            },
            ParseError::IdentityNotParenthesized { .. } => String::from_str(
                "uuids must be written as '#[uuid(\"$IID\")]'",
            ),
            ParseError::IdentityNotStringLiteral { .. } => String::from_str(
                "uuids must be string literals",
            ),
            ParseError::MalformedIdentity { error, .. } => match error {
                IidError::WrongGrouping => String::from_str(
                    "uuids must be five groups of 8, 4, 4, 4 and 12 hexadecimal digits",
                ),
                IidError::NonHexDigit { .. } => String::from_str(
                    "uuids must hold hexadecimal digits only",
                ),
            },
            ParseError::DuplicateIdentity { .. } => String::from_str(
                "Interfaces must have one '#[uuid(\"$IID\")]' attribute only",
            ),
            ParseError::MissingIdentity { interface, .. } => {
                let mut out: String = String::from_str("Interface `");
                out.append(interface.as_str());
                out.append("` must have a '#[uuid(\"$IID\")]' attribute");
                out
            },
            ParseError::InvalidVisibility { visibility, .. } => {
                let mut out: String = String::from_str("Visibility `");
                out.append(visibility.as_str());
                out.append("` must hold names, spaces, parentheses and colons only");
                out
            },
            ParseError::InvalidName { name, .. } => {
                let mut out: String = String::from_str("Interface name `");
                out.append(name.as_str());
                out.append("` must be one name of letters, digits and underscores");
                out
            },
            ParseError::MissingParent { interface, .. } => {
                let mut out: String = String::from_str(
                    "Interfaces must inherit from another interface like so: `interface ",
                );
                out.append(interface.as_str());
                out.append(": IParentInterface`");
                out
            },
            ParseError::RootWithParent { parent, .. } => {
                let mut out: String = String::from_str("IUnknown must not inherit from `");
                out.append(parent.as_str());
                out.append("`");
                out
            },
        }
    }

    /// The place in the source that the refusal points to.
    pub fn location(&self) -> (r: Location)
        ensures
            r == location_of(*self),
    {
        match self {
            ParseError::UnrecognizedAttribute { location, .. } => *location,
            ParseError::IdentityNotParenthesized { location } => *location,
            ParseError::IdentityNotStringLiteral { location } => *location,
            ParseError::MalformedIdentity { location, .. } => *location,
            ParseError::DuplicateIdentity { location } => *location,
            ParseError::MissingIdentity { location, .. } => *location,
            ParseError::InvalidVisibility { location, .. } => *location,
            ParseError::InvalidName { location, .. } => *location,
            ParseError::MissingParent { location, .. } => *location,
            ParseError::RootWithParent { location, .. } => *location,
        }
    }
}

/// What a run of annotations holds, once read.
#[derive(Debug, PartialEq, Eq)]
pub struct Scanned {
    pub iid: Option<Iid>,
    pub docs: Vec<Attribute>,
}

/// Reads the annotations of a declaration from first to last: the identity,
/// if one is given, and the descriptions, or the first refusal. This is the
/// first step of validating a declaration, which can be taken as soon as the
/// annotations are known.
pub fn read_annotations(attributes: &Vec<Attribute>) -> (r: Result<Scanned, ParseError>)
    ensures
        match scan(attributes@) {
            Err(e) => r == Err::<Scanned, ParseError>(e),
            Ok(seen) => r matches Ok(read) && read.iid == seen.iid && read.docs@ == seen.docs,
        },
{
    let mut iid: Option<Iid> = None;
    let mut docs: Vec<Attribute> = Vec::new();
    let mut i: usize = 0;
    while i < attributes.len()
        invariant
            i <= attributes.len(),
            scan(attributes@.take(i as int)) == Ok::<Annotations, ParseError>(
                Annotations { iid, docs: docs@ },
            ),
        decreases attributes.len() - i,
    {
        let attribute: &Attribute = &attributes[i];
        proof {
            let next = attributes@.take(i + 1);
            assert(next.drop_last() =~= attributes@.take(i as int));
            assert(next.last() == *attribute);
            lemma_scan_error_stays(attributes@, i + 1);
        }
        if text_is(&attribute.name, "doc") {
            docs.push(attribute.duplicate());
        } else if text_is(&attribute.name, "uuid") {
            match attribute.identity() {
                Err(e) => {
                    return Err(e);
                },
                Ok(value) => {
                    if iid.is_some() {
                        return Err(ParseError::DuplicateIdentity { location: attribute.location });
                    }
                    iid = Some(value);
                },
            }
        } else {
            return Err(
                ParseError::UnrecognizedAttribute {
                    name: attribute.name.clone(),
                    location: attribute.location,
                },
            );
        }
        i = i + 1;
    }
    assert(attributes@.take(i as int) =~= attributes@);
    Ok(Scanned { iid, docs })
}

fn heading_refusal(d: &Declaration, has_identity: bool) -> (r: Option<ParseError>)
    ensures
        r == heading_refusal_of(*d, has_identity),
{
    if !is_visibility(d.visibility.as_str()) {
        return Some(
            ParseError::InvalidVisibility { visibility: d.visibility.clone(), location: d.keyword },
        );
    }
    if !has_identity {
        return Some(ParseError::MissingIdentity { interface: d.name.clone(), location: d.keyword });
    }
    if !is_identifier(d.name.as_str()) {
        return Some(
            ParseError::InvalidName { name: d.name.clone(), location: d.name_location },
        );
    }
    let is_root: bool = text_is(&d.name, "IUnknown");
    match &d.parent {
        None => if is_root {
            None
        } else {
            Some(ParseError::MissingParent { interface: d.name.clone(), location: d.name_location })
        },
        Some(parent) => if is_root {
            Some(
                ParseError::RootWithParent { parent: parent.clone(), location: d.name_location },
            )
        } else {
            None
        },
    }
}

impl Declaration {
    /// The reason for which the declaration is refused, if it is. The
    /// methods play no part in it, so the check can be made before they
    /// are known.
    pub fn check(&self) -> (r: Option<ParseError>)
        ensures
            r == refusal(*self),
    {
        match read_annotations(&self.attributes) {
            Err(e) => Some(e),
            Ok(read) => heading_refusal(self, read.iid.is_some()),
        }
    }
}

impl Interface {
    /// Whether the descriptor holds what the declaration `d` says.
    pub open spec fn describes(self, d: Declaration) -> bool {
        &&& scan(d.attributes@) matches Ok(seen)
        &&& seen.iid == Some(self.iid)
        &&& self.docs@ == seen.docs
        &&& self.visibility == d.visibility
        &&& self.name == d.name
        &&& self.parent == d.parent
        &&& self.items == d.methods
    }

    /// Validates a declaration. The annotations are read in order: a
    /// description is kept, an identity is parsed, any other annotation is
    /// refused. Then the declaration must have a visibility that holds
    /// nothing but what a visibility can hold, exactly one identity, a name
    /// that is an identifier, and a parent unless it is the root, which must
    /// have none.
    pub fn parse(input: Declaration) -> (r: Result<Interface, ParseError>)
        ensures
            match refusal(input) {
                Some(e) => r == Err::<Interface, ParseError>(e),
                None => r matches Ok(interface) && interface.describes(input),
            },
    {
        let read: Scanned = match read_annotations(&input.attributes) {
            Err(e) => {
                return Err(e);
            },
            Ok(read) => read,
        };
        match heading_refusal(&input, read.iid.is_some()) {
            Some(e) => {
                return Err(e);
            },
            None => {},
        }
        let iid: Iid = match read.iid {
            Some(iid) => iid,
            None => {
                return Err(
                    ParseError::MissingIdentity { interface: input.name, location: input.keyword },
                );
            },
        };
        Ok(
            Interface {
                iid,
                visibility: input.visibility,
                name: input.name,
                parent: input.parent,
                items: input.methods,
                docs: read.docs,
            },
        )
    }

    /// The declaration of the handle type of the interface, as source text.
    pub fn to_struct_tokens(&self) -> (r: String)
        ensures
            r@ == struct_text(self.docs@, self.visibility@, self.name@),
    {
        let mut out: String = String::new();
        let mut i: usize = 0;
        while i < self.docs.len()
            invariant
                i <= self.docs@.len(),
                out@ == attributes_text(self.docs@.take(i as int)),
            decreases self.docs.len() - i,
        {
            let line: String = self.docs[i].to_text();
            proof {
                let next = self.docs@.take(i + 1);
                assert(next.drop_last() =~= self.docs@.take(i as int));
                assert(next.last() == self.docs@[i as int]);
            }
            out.append(line.as_str());
            out.append("\n");
            i = i + 1;
        }
        assert(self.docs@.take(i as int) =~= self.docs@);
        out.append("#[repr(transparent)]\n#[derive(Copy, Clone, Debug)]\n");
        out.append(self.visibility.as_str());
        if self.visibility.as_str().unicode_len() != 0 {
            out.append(" ");
        } else {
            assert(out@ =~= out@ + Seq::<char>::empty());
        }
        out.append("struct ");
        out.append(self.name.as_str());
        out.append(" {\n    inner: ::std::ptr::NonNull<");
        let mut vptr: String = self.name.clone();
        vptr.append("VPtr");
        out.append(vptr.as_str());
        out.append(">,\n}\n");
        out
    }

    /// The declaration of the identity constant of the interface, as source text.
    pub fn to_iid_tokens(&self) -> (r: String)
        ensures
            r@ == iid_text(self.name@, self.iid),
    {
        self.iid.to_tokens(self.name.as_str())
    }

    /// Whether this is the root interface: the one without a parent.
    pub fn is_iunknown(&self) -> (r: bool)
        ensures
            r == (self.parent is None),
    {
        self.parent.is_none()
    }
}

/// An annotation that is refused when the first `n` are read is refused when
/// all are read.
pub proof fn lemma_scan_error_stays(attributes: Seq<Attribute>, n: int)
    requires
        0 <= n <= attributes.len(),
    ensures
        scan(attributes.take(n)) is Err ==> scan(attributes) == scan(attributes.take(n)),
    decreases attributes.len(),
{
    if n < attributes.len() {
        assert(attributes.drop_last().take(n) =~= attributes.take(n));
        lemma_scan_error_stays(attributes.drop_last(), n);
    } else {
        assert(attributes.take(n) =~= attributes);
    }
}

} // verus!
