//! Index settings and the ranking-rule codec.
//!
//! A ranking rule is written as a tag from a fixed set — `words`, `typo`,
//! `proximity`, `attribute`, `sort`, `exactness` — or as `<field>:asc` /
//! `<field>:desc`, where the field name is one or more word characters
//! (letters, digits, underscore). The engine stores rules structurally, so
//! settings survive a round trip exactly when each rule text is canonical;
//! the codec here parses and prints rules and proves that the two
//! directions invert each other.

use vstd::prelude::*;
use vstd::string::StrSliceExecFns;
use vstd::string::StringExecFns;
use crate::strutil::str_eq;

verus! {

/// The synonyms of a given word.
pub struct Synonyms {
    pub word: String,
    pub synonyms: Vec<String>,
}

/// A value record of everything configurable on one index. Orderings are
/// significant for `searchable_fields` and `ranking_rules`; the other
/// lists are sets written down in some order.
pub struct IndexSettings {
    pub primary_key: Option<String>,
    pub searchable_fields: Option<Vec<String>>,
    pub filterable_fields: Vec<String>,
    pub sortable_fields: Vec<String>,
    pub ranking_rules: Vec<String>,
    pub stop_words: Vec<String>,
    pub synonyms: Vec<Synonyms>,
    pub typos_enabled: bool,
    pub min_word_size_for_one_typo: Option<u8>,
    pub min_word_size_for_two_typos: Option<u8>,
    pub disallow_typos_on_words: Vec<String>,
    pub disallow_typos_on_fields: Vec<String>,
}

/// The default settings: everything empty or unset, with typo tolerance
/// enabled.
pub open spec fn is_default_settings(r: IndexSettings) -> bool {
    &&& r.primary_key is None
    &&& r.searchable_fields is None
    &&& r.filterable_fields@ == Seq::<String>::empty()
    &&& r.sortable_fields@ == Seq::<String>::empty()
    &&& r.ranking_rules@ == Seq::<String>::empty()
    &&& r.stop_words@ == Seq::<String>::empty()
    &&& r.synonyms@ == Seq::<Synonyms>::empty()
    &&& r.typos_enabled == true
    &&& r.min_word_size_for_one_typo is None
    &&& r.min_word_size_for_two_typos is None
    &&& r.disallow_typos_on_words@ == Seq::<String>::empty()
    &&& r.disallow_typos_on_fields@ == Seq::<String>::empty()
}

impl Default for IndexSettings {
    /// Everything empty or unset, with typo tolerance enabled.
    fn default() -> (r: IndexSettings)
        ensures
            is_default_settings(r),
    {
        IndexSettings {
            primary_key: None,
            searchable_fields: None,
            filterable_fields: Vec::new(),
            sortable_fields: Vec::new(),
            ranking_rules: Vec::new(),
            stop_words: Vec::new(),
            synonyms: Vec::new(),
            typos_enabled: true,
            min_word_size_for_one_typo: None,
            min_word_size_for_two_typos: None,
            disallow_typos_on_words: Vec::new(),
            disallow_typos_on_fields: Vec::new(),
        }
    }
}

/// One ranking rule, structurally.
pub enum RankingRule {
    Words,
    Typo,
    Proximity,
    Attribute,
    Sort,
    Exactness,
    Asc(String),
    Desc(String),
}

/// A word character: ASCII letter, digit, or underscore.
pub open spec fn is_word_char(c: char) -> bool {
    (48 <= c as u32 && c as u32 <= 57) || (65 <= c as u32 && c as u32 <= 90) || (97 <= c as u32
        && c as u32 <= 122) || c as u32 == 95
}

/// A non-empty run of word characters: a well-formed field name.
pub open spec fn word_seq(s: Seq<char>) -> bool {
    s.len() > 0 && forall|i: int| 0 <= i < s.len() ==> is_word_char(#[trigger] s[i])
}

/// A rule whose printed form parses back: field names of `Asc`/`Desc` are
/// well-formed.
pub open spec fn rule_wf(r: RankingRule) -> bool {
    match r {
        RankingRule::Asc(f) => word_seq(f@),
        RankingRule::Desc(f) => word_seq(f@),
        _ => true,
    }
}

/// The canonical text of a rule.
pub open spec fn spec_rule_string(r: RankingRule) -> Seq<char> {
    match r {
        RankingRule::Words => "words"@,
        RankingRule::Typo => "typo"@,
        RankingRule::Proximity => "proximity"@,
        RankingRule::Attribute => "attribute"@,
        RankingRule::Sort => "sort"@,
        RankingRule::Exactness => "exactness"@,
        RankingRule::Asc(f) => f@ + ":asc"@,
        RankingRule::Desc(f) => f@ + ":desc"@,
    }
}

/// Text of the shape `<field>:asc`.
pub open spec fn asc_shape(s: Seq<char>) -> bool {
    s.len() > 4 && s.skip(s.len() - 4) == ":asc"@ && word_seq(s.take(s.len() - 4))
}

/// Text of the shape `<field>:desc`.
pub open spec fn desc_shape(s: Seq<char>) -> bool {
    s.len() > 5 && s.skip(s.len() - 5) == ":desc"@ && word_seq(s.take(s.len() - 5))
}

/// Whether `s` is an acceptable ranking-rule text.
pub open spec fn is_valid_rule_text(s: Seq<char>) -> bool {
    ||| s == "words"@
    ||| s == "typo"@
    ||| s == "proximity"@
    ||| s == "attribute"@
    ||| s == "sort"@
    ||| s == "exactness"@
    ||| asc_shape(s)
    ||| desc_shape(s)
}

/// What parsing the text `s` must yield: the matching tag, the matching
/// `Asc`/`Desc` with exactly the field prefix, or nothing.
pub open spec fn is_parsed_rule(s: Seq<char>, r: Option<RankingRule>) -> bool {
    if s == "words"@ {
        r == Some(RankingRule::Words)
    } else if s == "typo"@ {
        r == Some(RankingRule::Typo)
    } else if s == "proximity"@ {
        r == Some(RankingRule::Proximity)
    } else if s == "attribute"@ {
        r == Some(RankingRule::Attribute)
    } else if s == "sort"@ {
        r == Some(RankingRule::Sort)
    } else if s == "exactness"@ {
        r == Some(RankingRule::Exactness)
    } else if asc_shape(s) {
        r matches Some(RankingRule::Asc(f)) && f@ == s.take(s.len() - 4)
    } else if desc_shape(s) {
        r matches Some(RankingRule::Desc(f)) && f@ == s.take(s.len() - 5)
    } else {
        r is None
    }
}

/// Whether `c` is a word character.
pub fn word_char(c: char) -> (r: bool)
    ensures
        r == is_word_char(c),
{
    let u = c as u32;
    (48 <= u && u <= 57) || (65 <= u && u <= 90) || (97 <= u && u <= 122) || u == 95
}

/// Whether `s` is a non-empty run of word characters.
#[verifier::loop_isolation(false)]
pub fn word_str(s: &str) -> (r: bool)
    ensures
        r == word_seq(s@),
{
    let n = s.unicode_len();
    if n == 0 {
        return false;
    }
    let mut i: usize = 0;
    while i < n
        invariant
            i <= n,
            forall|j: int| 0 <= j < i ==> is_word_char(#[trigger] s@[j]),
        decreases n - i,
    {
        if !word_char(s.get_char(i)) {
            return false;
        }
        i = i + 1;
    }
    true
}

/// Parses one ranking-rule text.
pub fn parse_ranking_rule(s: &str) -> (r: Option<RankingRule>)
    ensures
        is_parsed_rule(s@, r),
        r is Some <==> is_valid_rule_text(s@),
{
    if str_eq(s, "words") {
        return Some(RankingRule::Words);
    }
    if str_eq(s, "typo") {
        return Some(RankingRule::Typo);
    }
    if str_eq(s, "proximity") {
        return Some(RankingRule::Proximity);
    }
    if str_eq(s, "attribute") {
        return Some(RankingRule::Attribute);
    }
    if str_eq(s, "sort") {
        return Some(RankingRule::Sort);
    }
    if str_eq(s, "exactness") {
        return Some(RankingRule::Exactness);
    }
    let n = s.unicode_len();
    if n > 4 && str_eq(s.substring_char(n - 4, n), ":asc") {
        proof {
            assert(s@.subrange(n - 4, n as int) =~= s@.skip(n - 4));
            lemma_suffixes_differ(s@);
        }
        let pre = s.substring_char(0, n - 4);
        if word_str(pre) {
            proof {
                assert(pre@ =~= s@.take(n - 4));
            }
            return Some(RankingRule::Asc(pre.to_owned()));
        }
        proof {
            assert(!asc_shape(s@)) by {
                assert(s@.take(n - 4) =~= pre@);
            }
        }
        return None;
    }
    if n > 5 && str_eq(s.substring_char(n - 5, n), ":desc") {
        proof {
            assert(s@.subrange(n - 5, n as int) =~= s@.skip(n - 5));
            lemma_suffixes_differ(s@);
        }
        let pre = s.substring_char(0, n - 5);
        if word_str(pre) {
            proof {
                assert(pre@ =~= s@.take(n - 5));
            }
            return Some(RankingRule::Desc(pre.to_owned()));
        }
        proof {
            assert(!desc_shape(s@)) by {
                assert(s@.take(n - 5) =~= pre@);
            }
        }
        return None;
    }
    proof {
        if n > 4 {
            assert(s@.subrange(n - 4, n as int) =~= s@.skip(n - 4));
        }
        if n > 5 {
            assert(s@.subrange(n - 5, n as int) =~= s@.skip(n - 5));
        }
    }
    None
}

/// A text cannot end in both `:asc` and `:desc`: their third-from-last
/// characters differ.
proof fn lemma_suffixes_differ(s: Seq<char>)
    ensures
        s.len() > 5 ==> !(s.skip(s.len() - 4) == ":asc"@ && s.skip(s.len() - 5) == ":desc"@),
{
    reveal_strlit(":asc");
    reveal_strlit(":desc");
    if s.len() > 5 && s.skip(s.len() - 4) == ":asc"@ && s.skip(s.len() - 5) == ":desc"@ {
        assert(s.skip(s.len() - 4)[1] == s[s.len() - 3]);
        assert(s.skip(s.len() - 5)[2] == s[s.len() - 3]);
        assert(":asc"@[1] == 'a');
        assert(":desc"@[2] == 'e');
    }
}

/// Prints one rule in its canonical text.
pub fn rule_to_string(r: &RankingRule) -> (s: String)
    ensures
        s@ == spec_rule_string(*r),
{
    match r {
        RankingRule::Words => "words".to_owned(),
        RankingRule::Typo => "typo".to_owned(),
        RankingRule::Proximity => "proximity".to_owned(),
        RankingRule::Attribute => "attribute".to_owned(),
        RankingRule::Sort => "sort".to_owned(),
        RankingRule::Exactness => "exactness".to_owned(),
        RankingRule::Asc(f) => f.clone().concat(":asc"),
        RankingRule::Desc(f) => f.clone().concat(":desc"),
    }
}

/// Each keyword consists of word characters, so no keyword carries the
/// colon that every `Asc`/`Desc` text carries.
proof fn lemma_keywords_have_no_colon()
    ensures
        forall|i: int| 0 <= i < "words"@.len() ==> #[trigger] "words"@[i] != ':',
        forall|i: int| 0 <= i < "typo"@.len() ==> #[trigger] "typo"@[i] != ':',
        forall|i: int| 0 <= i < "proximity"@.len() ==> #[trigger] "proximity"@[i] != ':',
        forall|i: int| 0 <= i < "attribute"@.len() ==> #[trigger] "attribute"@[i] != ':',
        forall|i: int| 0 <= i < "sort"@.len() ==> #[trigger] "sort"@[i] != ':',
        forall|i: int| 0 <= i < "exactness"@.len() ==> #[trigger] "exactness"@[i] != ':',
{
    reveal_strlit("words");
    reveal_strlit("typo");
    reveal_strlit("proximity");
    reveal_strlit("attribute");
    reveal_strlit("sort");
    reveal_strlit("exactness");
}

/// Printing a well-formed rule and parsing the text gives the rule back.
pub proof fn lemma_rule_print_parse(r: RankingRule)
    requires
        rule_wf(r),
    ensures
        is_parsed_rule(spec_rule_string(r), Some(r)),
{
    reveal_strlit(":asc");
    reveal_strlit(":desc");
    lemma_keywords_have_no_colon();
    let s = spec_rule_string(r);
    match r {
        RankingRule::Asc(f) => {
            assert(s.len() == f@.len() + 4);
            assert(s[f@.len() as int] == ':');
            assert(s.skip(s.len() - 4) =~= ":asc"@);
            assert(s.take(s.len() - 4) =~= f@);
            assert(s != "words"@) by {
                if s == "words"@ {
                    assert("words"@[f@.len() as int] == ':');
                }
            }
            assert(s != "typo"@) by {
                if s == "typo"@ {
                    assert("typo"@[f@.len() as int] == ':');
                }
            }
            assert(s != "proximity"@) by {
                if s == "proximity"@ {
                    assert("proximity"@[f@.len() as int] == ':');
                }
            }
            assert(s != "attribute"@) by {
                if s == "attribute"@ {
                    assert("attribute"@[f@.len() as int] == ':');
                }
            }
            assert(s != "sort"@) by {
                if s == "sort"@ {
                    assert("sort"@[f@.len() as int] == ':');
                }
            }
            assert(s != "exactness"@) by {
                if s == "exactness"@ {
                    assert("exactness"@[f@.len() as int] == ':');
                }
            }
            assert(asc_shape(s));
        },
        RankingRule::Desc(f) => {
            assert(s.len() == f@.len() + 5);
            assert(s[f@.len() as int] == ':');
            assert(s.skip(s.len() - 5) =~= ":desc"@);
            assert(s.take(s.len() - 5) =~= f@);
            assert(s != "words"@) by {
                if s == "words"@ {
                    assert("words"@[f@.len() as int] == ':');
                }
            }
            assert(s != "typo"@) by {
                if s == "typo"@ {
                    assert("typo"@[f@.len() as int] == ':');
                }
            }
            assert(s != "proximity"@) by {
                if s == "proximity"@ {
                    assert("proximity"@[f@.len() as int] == ':');
                }
            }
            assert(s != "attribute"@) by {
                if s == "attribute"@ {
                    assert("attribute"@[f@.len() as int] == ':');
                }
            }
            assert(s != "sort"@) by {
                if s == "sort"@ {
                    assert("sort"@[f@.len() as int] == ':');
                }
            }
            assert(s != "exactness"@) by {
                if s == "exactness"@ {
                    assert("exactness"@[f@.len() as int] == ':');
                }
            }
            lemma_suffixes_differ(s);
            assert(!asc_shape(s)) by {
                if s.skip(s.len() - 4) == ":asc"@ {
                    assert(s.skip(s.len() - 4)[1] == s[s.len() - 3]);
                    assert(s.skip(s.len() - 5)[2] == s[s.len() - 3]);
                }
            }
            assert(desc_shape(s));
        },
        _ => {
            lemma_keyword_texts_distinct();
        },
    }
}

/// The six keyword texts differ pairwise, and none has an `:asc`/`:desc`
/// shape.
proof fn lemma_keyword_texts_distinct()
    ensures
        "words"@ != "typo"@,
        "words"@ != "proximity"@,
        "words"@ != "attribute"@,
        "words"@ != "sort"@,
        "words"@ != "exactness"@,
        "typo"@ != "proximity"@,
        "typo"@ != "attribute"@,
        "typo"@ != "sort"@,
        "typo"@ != "exactness"@,
        "proximity"@ != "attribute"@,
        "proximity"@ != "sort"@,
        "proximity"@ != "exactness"@,
        "attribute"@ != "sort"@,
        "attribute"@ != "exactness"@,
        "sort"@ != "exactness"@,
        !asc_shape("words"@),
        !asc_shape("typo"@),
        !asc_shape("proximity"@),
        !asc_shape("attribute"@),
        !asc_shape("sort"@),
        !asc_shape("exactness"@),
        !desc_shape("words"@),
        !desc_shape("typo"@),
        !desc_shape("proximity"@),
        !desc_shape("attribute"@),
        !desc_shape("sort"@),
        !desc_shape("exactness"@),
{
    reveal_strlit("words");
    reveal_strlit("typo");
    reveal_strlit("proximity");
    reveal_strlit("attribute");
    reveal_strlit("sort");
    reveal_strlit("exactness");
    reveal_strlit(":asc");
    reveal_strlit(":desc");
    assert("typo"@ != "sort"@) by {
        if "typo"@ == "sort"@ {
            assert("typo"@[0] == "sort"@[0]);
        }
        assert("typo"@[0] == 't');
        assert("sort"@[0] == 's');
    }
    assert("proximity"@ != "attribute"@) by {
        if "proximity"@ == "attribute"@ {
            assert("proximity"@[0] == "attribute"@[0]);
        }
        assert("proximity"@[0] == 'p');
        assert("attribute"@[0] == 'a');
    }
    assert("proximity"@ != "exactness"@) by {
        if "proximity"@ == "exactness"@ {
            assert("proximity"@[0] == "exactness"@[0]);
        }
        assert("proximity"@[0] == 'p');
        assert("exactness"@[0] == 'e');
    }
    assert("attribute"@ != "exactness"@) by {
        if "attribute"@ == "exactness"@ {
            assert("attribute"@[0] == "exactness"@[0]);
        }
        assert("attribute"@[0] == 'a');
        assert("exactness"@[0] == 'e');
    }
    lemma_keyword_not_shaped("words"@);
    lemma_keyword_not_shaped("typo"@);
    lemma_keyword_not_shaped("proximity"@);
    lemma_keyword_not_shaped("attribute"@);
    lemma_keyword_not_shaped("sort"@);
    lemma_keyword_not_shaped("exactness"@);
}

/// A text of word characters only has no `:asc`/`:desc` shape; applied to
/// concrete keywords after their literals are revealed.
proof fn lemma_keyword_not_shaped(s: Seq<char>)
    requires
        forall|i: int| 0 <= i < s.len() ==> #[trigger] s[i] != ':',
    ensures
        !asc_shape(s),
        !desc_shape(s),
{
    reveal_strlit(":asc");
    reveal_strlit(":desc");
    if s.len() > 4 && s.skip(s.len() - 4) == ":asc"@ {
        assert(s.skip(s.len() - 4)[0] == s[s.len() - 4]);
        assert(":asc"@[0] == ':');
    }
    if s.len() > 5 && s.skip(s.len() - 5) == ":desc"@ {
        assert(s.skip(s.len() - 5)[0] == s[s.len() - 5]);
        assert(":desc"@[0] == ':');
    }
}

/// Parsing a text to a rule and printing the rule gives the text back, and
/// the rule is well-formed.
pub proof fn lemma_rule_parse_print(s: Seq<char>, r: RankingRule)
    requires
        is_parsed_rule(s, Some(r)),
    ensures
        spec_rule_string(r) == s,
        rule_wf(r),
{
    if s == "words"@ || s == "typo"@ || s == "proximity"@ || s == "attribute"@ || s == "sort"@
        || s == "exactness"@ {
    } else if asc_shape(s) {
        let f = s.take(s.len() - 4);
        if let RankingRule::Asc(g) = r {
            assert(g@ == f);
            assert(g@ + ":asc"@ =~= s) by {
                assert(s.take(s.len() - 4) + s.skip(s.len() - 4) =~= s);
            }
        }
    } else if desc_shape(s) {
        let f = s.take(s.len() - 5);
        if let RankingRule::Desc(g) = r {
            assert(g@ == f);
            assert(g@ + ":desc"@ =~= s) by {
                assert(s.take(s.len() - 5) + s.skip(s.len() - 5) =~= s);
            }
        }
    }
}

/// Whether every ranking-rule text in `rules` is acceptable.
pub open spec fn all_rules_valid(rules: Seq<String>) -> bool {
    forall|i: int| 0 <= i < rules.len() ==> is_valid_rule_text((#[trigger] rules[i])@)
}

/// Checks every ranking-rule text of a settings value.
#[verifier::loop_isolation(false)]
pub fn rules_valid(rules: &Vec<String>) -> (r: bool)
    ensures
        r == all_rules_valid(rules@),
{
    let n = rules.len();
    let mut i: usize = 0;
    while i < n
        invariant
            i <= n,
            forall|j: int| 0 <= j < i ==> is_valid_rule_text((#[trigger] rules@[j])@),
        decreases n - i,
    {
        match parse_ranking_rule(rules[i].as_str()) {
            Some(_) => {
            },
            None => {
                return false;
            },
        }
        i = i + 1;
    }
    true
}

} // verus!
