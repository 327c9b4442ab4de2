//! The body of an attribute: the map from its keys to their values, and the
//! grammar that reads it. A body is a list of keys separated by commas, each
//! alone or followed by `=` and a value.
//!
//! ```text
//! body  := ( item ( "," item )* ","? )?
//! item  := key | key "=" value
//! key   := identifier
//! value := identifier | literal
//! ```

use crate::source::{same_text, texts_of, tokens_of, Token, TokenView};
use vstd::prelude::*;

verus! {

/// The value that a key of an attribute body carries.
#[derive(Debug, PartialEq, Eq)]
pub enum KvValue {
    /// The key stands alone: `init`.
    Flag,
    /// The key is followed by `=` and a bare identifier: `base = Node`.
    Ident(String),
    /// The key is followed by `=` and any other literal.
    Literal(String),
}

/// Mathematical model of a [`KvValue`].
pub enum KvValueView {
    Flag,
    Ident(Seq<char>),
    Literal(Seq<char>),
}

impl View for KvValue {
    type V = KvValueView;

    open spec fn view(&self) -> KvValueView {
        match self {
            KvValue::Flag => KvValueView::Flag,
            KvValue::Ident(name) => KvValueView::Ident(name@),
            KvValue::Literal(text) => KvValueView::Literal(text@),
        }
    }
}

impl Clone for KvValue {
    fn clone(&self) -> (r: Self)
        ensures
            r@ == self@,
    {
        match self {
            KvValue::Flag => KvValue::Flag,
            KvValue::Ident(name) => KvValue::Ident(name.clone()),
            KvValue::Literal(text) => KvValue::Literal(text.clone()),
        }
    }
}

/// One key of an attribute body, with its value.
#[derive(Debug, PartialEq, Eq)]
struct KvEntry {
    key: String,
    value: KvValue,
}

/// Mathematical model of a [`KvEntry`].
pub struct KvEntryView {
    pub key: Seq<char>,
    pub value: KvValueView,
}

impl View for KvEntry {
    type V = KvEntryView;

    closed spec fn view(&self) -> KvEntryView {
        KvEntryView { key: self.key@, value: self.value@ }
    }
}

/// The keys of `entries`, in their order.
pub open spec fn keys_of(entries: Seq<KvEntryView>) -> Seq<Seq<char>> {
    entries.map_values(|e: KvEntryView| e.key)
}

/// No key stands at two places of `entries`.
pub open spec fn keys_distinct(entries: Seq<KvEntryView>) -> bool {
    forall|i: int, j: int|
        0 <= i < j < entries.len() ==> (#[trigger] entries[i]).key != (#[trigger] entries[j]).key
}

/// The first place at or after `from` where `key` stands in `entries`.
pub open spec fn find_key(entries: Seq<KvEntryView>, key: Seq<char>, from: int) -> Option<int>
    decreases entries.len() - from,
{
    if from < 0 || from >= entries.len() {
        None
    } else if entries[from].key == key {
        Some(from)
    } else {
        find_key(entries, key, from + 1)
    }
}

/// The value that `entries` gives to `key`, if the key is there.
pub open spec fn lookup(entries: Seq<KvEntryView>, key: Seq<char>) -> Option<KvValueView> {
    match find_key(entries, key, 0) {
        Some(i) => Some(entries[i].value),
        None => None,
    }
}

/// What [`find_key`] finds is a place of the key, and the first one.
pub proof fn lemma_find_key(entries: Seq<KvEntryView>, key: Seq<char>, from: int)
    requires
        0 <= from,
    ensures
        match find_key(entries, key, from) {
            Some(i) => from <= i < entries.len() && entries[i].key == key && forall|j: int|
                from <= j < i ==> (#[trigger] entries[j]).key != key,
            None => forall|j: int| from <= j < entries.len() ==> (#[trigger] entries[j]).key != key,
        },
    decreases entries.len() - from,
{
    if from < entries.len() && entries[from].key != key {
        lemma_find_key(entries, key, from + 1);
    }
}

impl Clone for KvEntry {
    fn clone(&self) -> (r: Self)
        ensures
            r@ == self@,
    {
        KvEntry { key: self.key.clone(), value: self.value.clone() }
    }
}

/// The body of an attribute: its keys in the order in which they were
/// written, each with its value. No key occurs twice.
#[derive(Debug, PartialEq, Eq)]
pub struct AttributeMap {
    entries: Vec<KvEntry>,
}

impl View for AttributeMap {
    type V = Seq<KvEntryView>;

    closed spec fn view(&self) -> Seq<KvEntryView> {
        self.entries@.map_values(|e: KvEntry| e@)
    }
}

impl AttributeMap {
    #[verifier::type_invariant]
    spec fn keys_occur_once(&self) -> bool {
        keys_distinct(self@)
    }

    /// The map without any key.
    pub fn new() -> (r: Self)
        ensures
            r@ == Seq::<KvEntryView>::empty(),
    {
        let r = AttributeMap { entries: Vec::new() };
        assert(r@ =~= Seq::<KvEntryView>::empty());
        r
    }

    /// The number of keys.
    pub fn len(&self) -> (n: usize)
        ensures
            n == self@.len(),
    {
        self.entries.len()
    }

    /// Whether the map holds no key.
    pub fn is_empty(&self) -> (r: bool)
        ensures
            r == (self@.len() == 0),
    {
        self.entries.len() == 0
    }

    /// The place of `key` among the entries.
    fn position(&self, key: &str) -> (r: Option<usize>)
        ensures
            match r {
                Some(i) => find_key(self@, key@, 0) == Some(i as int) && i < self.entries.len(),
                None => find_key(self@, key@, 0).is_none(),
            },
    {
        let mut i: usize = 0;
        while i < self.entries.len()
            invariant
                i <= self.entries.len(),
                find_key(self@, key@, 0) == find_key(self@, key@, i as int),
            decreases self.entries.len() - i,
        {
            if same_text(&self.entries[i].key, key) {
                return Some(i);
            }
            i += 1;
        }
        None
    }

    /// The value of `key`, if the map holds the key.
    pub fn get(&self, key: &str) -> (r: Option<&KvValue>)
        ensures
            match r {
                Some(v) => lookup(self@, key@) == Some(v@),
                None => lookup(self@, key@).is_none(),
            },
    {
        match self.position(key) {
            Some(i) => Some(&self.entries[i].value),
            None => None,
        }
    }

    /// Gives `key` the value `value`. A key that the map holds already keeps
    /// its place and hands back its former value; a new key goes to the end.
    pub fn insert(&mut self, key: String, value: KvValue) -> (r: Option<KvValue>)
        ensures
            match find_key(old(self)@, key@, 0) {
                Some(i) => final(self)@ == old(self)@.update(
                    i,
                    KvEntryView { key: key@, value: value@ },
                ) && r.is_some() && r.unwrap()@ == old(self)@[i].value,
                None => final(self)@ == old(self)@.push(KvEntryView { key: key@, value: value@ })
                    && r.is_none(),
            },
            keys_distinct(final(self)@),
    {
        proof {
            use_type_invariant(&*self);
            lemma_find_key(self@, key@, 0);
        }
        let found = self.position(key.as_str());
        let mut entries: Vec<KvEntry> = Vec::new();
        let mut former: Option<KvValue> = None;
        let mut i: usize = 0;
        while i < self.entries.len()
            invariant
                i <= self.entries.len(),
                entries@.len() == i,
                *self == *old(self),
                forall|j: int|
                    0 <= j < i && Some(j as usize) != found ==> (#[trigger] entries@[j])@
                        == self@[j],
                found.is_some() && found.unwrap() < i ==> former.is_some() && former.unwrap()@
                    == self@[found.unwrap() as int].value && entries@[found.unwrap() as int]@
                    == (KvEntryView { key: key@, value: value@ }),
                !(found.is_some() && found.unwrap() < i) ==> former.is_none(),
            decreases self.entries.len() - i,
        {
            if Some(i) == found {
                former = Some(self.entries[i].value.clone());
                entries.push(KvEntry { key: key.clone(), value: value.clone() });
            } else {
                entries.push(self.entries[i].clone());
            }
            i += 1;
        }
        if found.is_none() {
            entries.push(KvEntry { key, value });
        }
        proof {
            let now = entries@.map_values(|e: KvEntry| e@);
            match found {
                Some(at) => {
                    assert(now =~= old(self)@.update(
                        at as int,
                        KvEntryView { key: key@, value: value@ },
                    ));
                },
                None => {
                    assert(now =~= old(self)@.push(KvEntryView { key: key@, value: value@ }));
                },
            }
        }
        self.entries = entries;
        former
    }

    /// Takes `key` out of the map and hands back its value; the other keys
    /// keep their order.
    pub fn remove(&mut self, key: &str) -> (r: Option<KvValue>)
        ensures
            match find_key(old(self)@, key@, 0) {
                Some(i) => final(self)@ == old(self)@.remove(i) && r.is_some() && r.unwrap()@
                    == old(self)@[i].value,
                None => final(self)@ == old(self)@ && r.is_none(),
            },
            keys_distinct(old(self)@),
            keys_distinct(final(self)@),
    {
        proof {
            use_type_invariant(&*self);
        }
        match self.position(key) {
            Some(at) => {
                let mut entries: Vec<KvEntry> = Vec::new();
                let mut i: usize = 0;
                while i < self.entries.len()
                    invariant
                        i <= self.entries.len(),
                        at < self.entries.len(),
                        *self == *old(self),
                        entries@.len() == if i <= at { i as int } else { i - 1 },
                        forall|j: int|
                            0 <= j < i && j < at ==> (#[trigger] entries@[j])@ == self@[j],
                        forall|j: int| at < j < i ==> (#[trigger] entries@[j - 1])@ == self@[j],
                    decreases self.entries.len() - i,
                {
                    if i != at {
                        entries.push(self.entries[i].clone());
                    }
                    i += 1;
                }
                let former = self.entries[at].value.clone();
                proof {
                    let now = entries@.map_values(|e: KvEntry| e@);
                    assert forall|j: int| 0 <= j < now.len() implies now[j] == old(self)@.remove(
                        at as int,
                    )[j] by {
                        if j >= at {
                            assert(entries@[(j + 1) - 1]@ == self@[j + 1]);
                        }
                    }
                    assert(now =~= old(self)@.remove(at as int));
                }
                self.entries = entries;
                Some(former)
            },
            None => None,
        }
    }

    /// The keys, in the order in which they were written.
    pub fn keys(&self) -> (r: Vec<String>)
        ensures
            texts_of(r@) == keys_of(self@),
            keys_distinct(self@),
    {
        proof {
            use_type_invariant(self);
        }
        let mut out: Vec<String> = Vec::new();
        let mut i: usize = 0;
        while i < self.entries.len()
            invariant
                i <= self.entries.len(),
                out@.len() == i,
                forall|j: int| 0 <= j < i ==> (#[trigger] out@[j])@ == self@[j].key,
            decreases self.entries.len() - i,
        {
            out.push(self.entries[i].key.clone());
            i += 1;
        }
        assert(texts_of(out@) =~= keys_of(self@));
        out
    }
}

impl Clone for AttributeMap {
    fn clone(&self) -> (r: Self)
        ensures
            r@ == self@,
    {
        proof {
            use_type_invariant(self);
        }
        let mut entries: Vec<KvEntry> = Vec::new();
        let mut i: usize = 0;
        while i < self.entries.len()
            invariant
                i <= self.entries.len(),
                entries@.len() == i,
                forall|j: int| 0 <= j < i ==> (#[trigger] entries@[j])@ == self@[j],
            decreases self.entries.len() - i,
        {
            entries.push(self.entries[i].clone());
            i += 1;
        }
        assert(entries@.map_values(|e: KvEntry| e@) =~= self@);
        AttributeMap { entries }
    }
}

/// What is wrong with an attribute body.
#[derive(Clone, Copy, Debug, PartialEq, Eq, Structural)]
pub enum KvErrorKind {
    /// A key must stand here: an identifier.
    ExpectedKey,
    /// A key or a value must be followed by `,`, a key also by `=`.
    ExpectedSeparator,
    /// A value must stand here: an identifier or a literal.
    ExpectedValue,
    /// The key stands in the body already.
    DuplicateKey,
}

/// An attribute body that is refused: why, and at which token. A token that
/// is missing at the end has the index behind the last token.
#[derive(Clone, Copy, Debug, PartialEq, Eq, Structural)]
pub struct KvError {
    pub kind: KvErrorKind,
    pub at: usize,
}

/// The value that `token` stands for, if it can be a value.
pub open spec fn value_of(token: TokenView) -> Option<KvValueView> {
    match token {
        TokenView::Ident(name) => Some(KvValueView::Ident(name)),
        TokenView::Literal(text) => Some(KvValueView::Literal(text)),
        _ => None,
    }
}

/// The entries of the body `tokens` from the token at `from` on, behind the
/// entries `found` of the tokens before it.
pub open spec fn parsed_from(tokens: Seq<TokenView>, from: int, found: Seq<KvEntryView>) -> Result<
    Seq<KvEntryView>,
    KvError,
>
    decreases tokens.len() - from,
{
    if from < 0 || from >= tokens.len() {
        Ok(found)
    } else {
        match tokens[from] {
            TokenView::Ident(key) => {
                if find_key(found, key, 0) is Some {
                    Err(KvError { kind: KvErrorKind::DuplicateKey, at: from as usize })
                } else if from + 1 >= tokens.len() {
                    Ok(found.push(KvEntryView { key, value: KvValueView::Flag }))
                } else if tokens[from + 1] == TokenView::Punct(',') {
                    parsed_from(
                        tokens,
                        from + 2,
                        found.push(KvEntryView { key, value: KvValueView::Flag }),
                    )
                } else if tokens[from + 1] == TokenView::Punct('=') {
                    if from + 2 >= tokens.len() {
                        Err(KvError { kind: KvErrorKind::ExpectedValue, at: (from + 2) as usize })
                    } else {
                        match value_of(tokens[from + 2]) {
                            None => Err(
                                KvError {
                                    kind: KvErrorKind::ExpectedValue,
                                    at: (from + 2) as usize,
                                },
                            ),
                            Some(value) => {
                                if from + 3 >= tokens.len() {
                                    Ok(found.push(KvEntryView { key, value }))
                                } else if tokens[from + 3] == TokenView::Punct(',') {
                                    parsed_from(
                                        tokens,
                                        from + 4,
                                        found.push(KvEntryView { key, value }),
                                    )
                                } else {
                                    Err(
                                        KvError {
                                            kind: KvErrorKind::ExpectedSeparator,
                                            at: (from + 3) as usize,
                                        },
                                    )
                                }
                            },
                        }
                    }
                } else {
                    Err(KvError { kind: KvErrorKind::ExpectedSeparator, at: (from + 1) as usize })
                }
            },
            _ => Err(KvError { kind: KvErrorKind::ExpectedKey, at: from as usize }),
        }
    }
}

/// The entries of the attribute body `tokens`.
pub open spec fn parsed(tokens: Seq<TokenView>) -> Result<Seq<KvEntryView>, KvError> {
    parsed_from(tokens, 0, Seq::empty())
}

/// A new key behind entries whose keys are apart leaves the keys apart.
proof fn lemma_push_new_key(found: Seq<KvEntryView>, entry: KvEntryView)
    requires
        keys_distinct(found),
        find_key(found, entry.key, 0) is None,
    ensures
        keys_distinct(found.push(entry)),
{
    lemma_find_key(found, entry.key, 0);
}

proof fn lemma_parsed_from_keys_distinct(tokens: Seq<TokenView>, from: int, found: Seq<KvEntryView>)
    requires
        keys_distinct(found),
    ensures
        parsed_from(tokens, from, found) is Ok ==> keys_distinct(
            parsed_from(tokens, from, found)->Ok_0,
        ),
    decreases tokens.len() - from,
{
    if 0 <= from < tokens.len() {
        if let TokenView::Ident(key) = tokens[from] {
            if find_key(found, key, 0) is None {
                let flag = KvEntryView { key, value: KvValueView::Flag };
                lemma_push_new_key(found, flag);
                if from + 1 < tokens.len() {
                    if tokens[from + 1] == TokenView::Punct(',') {
                        lemma_parsed_from_keys_distinct(tokens, from + 2, found.push(flag));
                    } else if tokens[from + 1] == TokenView::Punct('=') && from + 2 < tokens.len() {
                        if let Some(value) = value_of(tokens[from + 2]) {
                            let entry = KvEntryView { key, value };
                            lemma_push_new_key(found, entry);
                            if from + 3 < tokens.len() && tokens[from + 3] == TokenView::Punct(',') {
                                lemma_parsed_from_keys_distinct(tokens, from + 4, found.push(entry));
                            }
                        }
                    }
                }
            }
        }
    }
}

/// No key stands twice in the entries of a body that is accepted.
pub proof fn lemma_parsed_keys_distinct(tokens: Seq<TokenView>)
    ensures
        parsed(tokens) is Ok ==> keys_distinct(parsed(tokens)->Ok_0),
{
    lemma_parsed_from_keys_distinct(tokens, 0, Seq::empty());
}

/// Whether `token` is the punctuation `c`.
fn is_punct(token: &Token, c: char) -> (r: bool)
    ensures
        r == (token@ == TokenView::Punct(c)),
{
    match token {
        Token::Punct(p) => *p == c,
        _ => false,
    }
}

/// What a reading of a body returned, by its model.
pub open spec fn entries_of(r: Result<AttributeMap, KvError>) -> Result<Seq<KvEntryView>, KvError> {
    match r {
        Ok(map) => Ok(map@),
        Err(e) => Err(e),
    }
}

/// Reads the body of an attribute.
pub fn parse_kv_group(tokens: &Vec<Token>) -> (r: Result<AttributeMap, KvError>)
    ensures
        entries_of(r) == parsed(tokens_of(tokens@)),
{
    let ghost tv = tokens_of(tokens@);
    let mut map = AttributeMap::new();
    let mut i: usize = 0;
    while i < tokens.len()
        invariant
            i <= tokens.len(),
            tv == tokens_of(tokens@),
            parsed(tv) == parsed_from(tv, i as int, map@),
        decreases tokens.len() - i,
    {
        assert(tokens@[i as int]@ == tv[i as int]);
        let key = match &tokens[i] {
            Token::Ident(key) => key,
            _ => {
                return Err(KvError { kind: KvErrorKind::ExpectedKey, at: i });
            },
        };
        if map.get(key.as_str()).is_some() {
            return Err(KvError { kind: KvErrorKind::DuplicateKey, at: i });
        }
        if i + 1 >= tokens.len() {
            map.insert(key.clone(), KvValue::Flag);
            return Ok(map);
        }
        assert(tokens@[i + 1]@ == tv[i + 1]);
        if is_punct(&tokens[i + 1], ',') {
            map.insert(key.clone(), KvValue::Flag);
            i += 2;
        } else if is_punct(&tokens[i + 1], '=') {
            if i + 2 >= tokens.len() {
                return Err(KvError { kind: KvErrorKind::ExpectedValue, at: i + 2 });
            }
            assert(tokens@[i + 2]@ == tv[i + 2]);
            let value = match &tokens[i + 2] {
                Token::Ident(name) => KvValue::Ident(name.clone()),
                Token::Literal(text) => KvValue::Literal(text.clone()),
                _ => {
                    return Err(KvError { kind: KvErrorKind::ExpectedValue, at: i + 2 });
                },
            };
            if i + 3 >= tokens.len() {
                map.insert(key.clone(), value);
                return Ok(map);
            }
            assert(tokens@[i + 3]@ == tv[i + 3]);
            if is_punct(&tokens[i + 3], ',') {
                map.insert(key.clone(), value);
                i += 4;
            } else {
                return Err(KvError { kind: KvErrorKind::ExpectedSeparator, at: i + 3 });
            }
        } else {
            return Err(KvError { kind: KvErrorKind::ExpectedSeparator, at: i + 1 });
        }
    }
    Ok(map)
}

} // verus!
