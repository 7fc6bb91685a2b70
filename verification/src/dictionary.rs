//! The dictionary as a mathematical value, and the laws that hold of it.
//!
//! A dictionary is two tables from keyword text to keyword. File extensions
//! have a table of their own, so that a text such as "MP3" can be an audio
//! term in one table and a file extension in the other.

use crate::element::ElementCategory;
use crate::keyword::Keyword;
use crate::keyword::KeywordOptions;
use vstd::prelude::*;

verus! {

pub struct Dictionary {
    /// The keywords of every category but `FileExtension`.
    pub general: Map<Seq<u32>, Keyword>,
    /// The keywords of category `FileExtension`.
    pub extension: Map<Seq<u32>, Keyword>,
}

impl Dictionary {
    pub open spec fn empty() -> Dictionary {
        Dictionary { general: Map::empty(), extension: Map::empty() }
    }

    /// The table in which keywords of `category` are kept and looked up.
    pub open spec fn table(self, category: ElementCategory) -> Map<Seq<u32>, Keyword> {
        if category == ElementCategory::FileExtension {
            self.extension
        } else {
            self.general
        }
    }

    /// No table holds the empty text, and every keyword lies in the table to
    /// which its category is routed.
    pub open spec fn wf(self) -> bool {
        &&& !self.general.contains_key(Seq::empty())
        &&& !self.extension.contains_key(Seq::empty())
        &&& forall|text: Seq<u32>| #[trigger]
            self.general.contains_key(text) ==> self.general[text].category
                != ElementCategory::FileExtension
        &&& forall|text: Seq<u32>| #[trigger]
            self.extension.contains_key(text) ==> self.extension[text].category
                == ElementCategory::FileExtension
    }

    /// The keyword registered for `text` in the table of `category`, if its
    /// category is the one asked for.
    pub open spec fn lookup(self, category: ElementCategory, text: Seq<u32>) -> Option<Keyword> {
        let table = self.table(category);
        if table.contains_key(text) && table[text].category == category {
            Some(table[text])
        } else {
            None
        }
    }

    /// Whether `text` is registered under `category`, in either table.
    pub open spec fn registered_under(self, category: ElementCategory, text: Seq<u32>) -> bool {
        ||| self.general.contains_key(text) && self.general[text].category == category
        ||| self.extension.contains_key(text) && self.extension[text].category == category
    }

    /// Registers one keyword. An empty text is not registered, and a text
    /// that the table of `category` already holds keeps what it has.
    pub open spec fn insert(
        self,
        category: ElementCategory,
        options: KeywordOptions,
        text: Seq<u32>,
    ) -> Dictionary {
        if text.len() == 0 || self.table(category).contains_key(text) {
            self
        } else {
            let keyword = Keyword { category, options };
            if category == ElementCategory::FileExtension {
                Dictionary { extension: self.extension.insert(text, keyword), ..self }
            } else {
                Dictionary { general: self.general.insert(text, keyword), ..self }
            }
        }
    }

    /// Registers keywords one after another, first to last.
    pub open spec fn register(
        self,
        category: ElementCategory,
        options: KeywordOptions,
        texts: Seq<Seq<u32>>,
    ) -> Dictionary
        decreases texts.len(),
    {
        if texts.len() == 0 {
            self
        } else {
            self.register(category, options, texts.drop_last()).insert(
                category,
                options,
                texts.last(),
            )
        }
    }
}

/// Registering keywords keeps a dictionary well formed.
pub proof fn lemma_register_wf(
    d: Dictionary,
    category: ElementCategory,
    options: KeywordOptions,
    texts: Seq<Seq<u32>>,
)
    requires
        d.wf(),
    ensures
        d.register(category, options, texts).wf(),
    decreases texts.len(),
{
    if texts.len() > 0 {
        lemma_register_wf(d, category, options, texts.drop_last());
        let text = texts.last();
        assert(text.len() == 0 ==> text =~= Seq::empty());
    }
}

/// Registering keywords changes nothing that a table already holds, and
/// leaves the other table as it was.
pub proof fn lemma_register_keeps(
    d: Dictionary,
    category: ElementCategory,
    options: KeywordOptions,
    texts: Seq<Seq<u32>>,
)
    ensures
        forall|text: Seq<u32>| #[trigger]
            d.general.contains_key(text) ==> {
                &&& d.register(category, options, texts).general.contains_key(text)
                &&& d.register(category, options, texts).general[text] == d.general[text]
            },
        forall|text: Seq<u32>| #[trigger]
            d.extension.contains_key(text) ==> {
                &&& d.register(category, options, texts).extension.contains_key(text)
                &&& d.register(category, options, texts).extension[text] == d.extension[text]
            },
        category == ElementCategory::FileExtension ==> d.register(
            category,
            options,
            texts,
        ).general == d.general,
        category != ElementCategory::FileExtension ==> d.register(
            category,
            options,
            texts,
        ).extension == d.extension,
    decreases texts.len(),
{
    if texts.len() > 0 {
        lemma_register_keeps(d, category, options, texts.drop_last());
    }
}

/// After keywords were registered under a category, the table of that
/// category holds every one of them that is not empty: with the category and
/// policy just given where the text was new, and with what it had where the
/// text was there before.
pub proof fn lemma_register_holds(
    d: Dictionary,
    category: ElementCategory,
    options: KeywordOptions,
    texts: Seq<Seq<u32>>,
    i: int,
)
    requires
        0 <= i < texts.len(),
        texts[i].len() > 0,
    ensures
        d.register(category, options, texts).table(category).contains_key(texts[i]),
        d.table(category).contains_key(texts[i]) ==> d.register(category, options, texts).table(
            category,
        )[texts[i]] == d.table(category)[texts[i]],
        !d.table(category).contains_key(texts[i]) ==> d.register(category, options, texts).table(
            category,
        )[texts[i]] == (Keyword { category, options }),
    decreases texts.len(),
{
    let before = d.register(category, options, texts.drop_last());
    let after = d.register(category, options, texts);
    assert(after == before.insert(category, options, texts.last()));
    lemma_register_keeps(d, category, options, texts.drop_last());
    if i < texts.len() - 1 {
        lemma_register_holds(d, category, options, texts.drop_last(), i);
        assert(texts.drop_last()[i] == texts[i]);
    } else if before.table(category).contains_key(texts[i]) && !d.table(category).contains_key(
        texts[i],
    ) {
        lemma_register_new_entry(d, category, options, texts.drop_last(), texts[i]);
    }
}

/// A text that registering keywords under a category brought into the table
/// of that category has the category and policy given.
pub proof fn lemma_register_new_entry(
    d: Dictionary,
    category: ElementCategory,
    options: KeywordOptions,
    texts: Seq<Seq<u32>>,
    text: Seq<u32>,
)
    requires
        !d.table(category).contains_key(text),
        d.register(category, options, texts).table(category).contains_key(text),
    ensures
        d.register(category, options, texts).table(category)[text] == (Keyword {
            category,
            options,
        }),
        texts.contains(text),
    decreases texts.len(),
{
    if texts.len() > 0 {
        let before = d.register(category, options, texts.drop_last());
        if before.table(category).contains_key(text) {
            lemma_register_new_entry(d, category, options, texts.drop_last(), text);
            let k = choose|k: int| 0 <= k < texts.drop_last().len() && texts.drop_last()[k] == text;
            assert(texts[k] == text);
        } else {
            assert(texts.last() == text);
        }
    }
}

/// Registering keywords under one category registers nothing under another:
/// a category under which the dictionary held no text holds none afterwards.
pub proof fn lemma_register_other_category(
    d: Dictionary,
    category: ElementCategory,
    options: KeywordOptions,
    texts: Seq<Seq<u32>>,
    other: ElementCategory,
)
    requires
        other != category,
        forall|text: Seq<u32>| !d.registered_under(other, text),
    ensures
        forall|text: Seq<u32>| !d.register(category, options, texts).registered_under(other, text),
    decreases texts.len(),
{
    if texts.len() > 0 {
        let before = d.register(category, options, texts.drop_last());
        let after = d.register(category, options, texts);
        lemma_register_other_category(d, category, options, texts.drop_last(), other);
        assert forall|text: Seq<u32>| !after.registered_under(other, text) by {
            assert(!before.registered_under(other, text));
        }
    }
}

/// A keyword registered under a category is found under it: after keywords
/// were registered under `category`, looking one of them up under
/// `category` gives a keyword of that category, unless the text is empty or
/// the table held it before under another category.
pub proof fn lemma_registered_is_found(
    d: Dictionary,
    category: ElementCategory,
    options: KeywordOptions,
    texts: Seq<Seq<u32>>,
    i: int,
)
    requires
        0 <= i < texts.len(),
        texts[i].len() > 0,
        d.table(category).contains_key(texts[i]) ==> d.table(category)[texts[i]].category
            == category,
    ensures
        d.register(category, options, texts).lookup(category, texts[i]) is Some,
        d.register(category, options, texts).lookup(category, texts[i])->0.category == category,
        !d.table(category).contains_key(texts[i]) ==> d.register(category, options, texts).lookup(
            category,
            texts[i],
        ) == Some(Keyword { category, options }),
{
    lemma_register_holds(d, category, options, texts, i);
}

/// Whatever a lookup finds has the category that was asked for.
pub proof fn lemma_found_has_category(d: Dictionary, category: ElementCategory, text: Seq<u32>)
    ensures
        d.lookup(category, text) matches Some(keyword) ==> keyword.category == category
            && d.registered_under(category, text),
{
}

/// A text registered under one category only is not found under any other,
/// whatever the table of that other category holds.
pub proof fn lemma_other_category_not_found(
    d: Dictionary,
    category: ElementCategory,
    other: ElementCategory,
    text: Seq<u32>,
)
    requires
        category != other,
        forall|c: ElementCategory| d.registered_under(c, text) ==> c == category,
    ensures
        d.lookup(other, text) is None,
{
    if d.lookup(other, text) is Some {
        assert(d.registered_under(other, text));
    }
}

/// The first registration wins: what a lookup found before keywords were
/// registered, under any category and with any policy, it finds afterwards.
pub proof fn lemma_first_registration_wins(
    d: Dictionary,
    category: ElementCategory,
    text: Seq<u32>,
    again: ElementCategory,
    options: KeywordOptions,
    texts: Seq<Seq<u32>>,
)
    requires
        d.lookup(category, text) is Some,
    ensures
        d.register(again, options, texts).lookup(category, text) == d.lookup(category, text),
{
    lemma_register_keeps(d, again, options, texts);
}

/// The empty text is never found in a well-formed dictionary.
pub proof fn lemma_empty_text_not_found(d: Dictionary, category: ElementCategory)
    requires
        d.wf(),
    ensures
        d.lookup(category, Seq::empty()) is None,
{
}

/// The empty text is never registered: whatever is registered in a
/// well-formed dictionary, the empty text is not found afterwards, under any
/// category.
pub proof fn lemma_empty_text_never_found(
    d: Dictionary,
    category: ElementCategory,
    options: KeywordOptions,
    texts: Seq<Seq<u32>>,
    asked: ElementCategory,
)
    requires
        d.wf(),
    ensures
        d.register(category, options, texts).lookup(asked, Seq::empty()) is None,
{
    lemma_register_wf(d, category, options, texts);
}

/// Registering the empty text changes nothing.
pub proof fn lemma_empty_text_not_registered(
    d: Dictionary,
    category: ElementCategory,
    options: KeywordOptions,
)
    ensures
        d.insert(category, options, Seq::empty()) == d,
        d.register(category, options, seq![Seq::empty()]) == d,
{
    let texts: Seq<Seq<u32>> = seq![Seq::empty()];
    assert(texts.drop_last().len() == 0);
    assert(texts.last() == Seq::<u32>::empty());
    assert(d.register(category, options, texts.drop_last()) == d);
}

} // verus!
