//! The game config: paragraphs by locale, resources, plugin settings,
//! and the locale resolver with its paired fallback.

use crate::ast::{ExprV, Program, SubTextV, Text};
use crate::varmap::VarMap;
use vstd::prelude::*;

verus! {

/// A named cluster of scripted texts with an optional pointer to the
/// next paragraph.
#[derive(Debug)]
pub struct Paragraph {
    /// The tag: the key a `next` expression names.
    pub tag: String,
    /// The human-readable title, if any.
    pub title: Option<String>,
    /// The texts, played in order.
    pub texts: Vec<Text>,
    /// The program whose string value names the next paragraph; the game
    /// ends after this paragraph when absent.
    pub next: Option<Program>,
}

/// The mathematical model of a [`Paragraph`].
pub struct ParagraphV {
    /// The tag.
    pub tag: Seq<char>,
    /// The title, if any.
    pub title: Option<Seq<char>>,
    /// The texts.
    pub texts: Seq<Seq<SubTextV>>,
    /// The next-paragraph program, if any.
    pub next: Option<Seq<ExprV>>,
}

impl DeepView for Paragraph {
    type V = ParagraphV;

    open spec fn deep_view(&self) -> ParagraphV {
        ParagraphV {
            tag: self.tag@,
            title: match self.title {
                Some(t) => Some(t@),
                None => None,
            },
            texts: self.texts.deep_view(),
            next: match self.next {
                Some(p) => Some(p.deep_view()),
                None => None,
            },
        }
    }
}

/// Where the plugin modules live and which to load.
#[derive(Debug)]
pub struct PluginConfig {
    /// The directory of the modules.
    pub dir: String,
    /// The module names, without extension; empty means every module
    /// found in the directory, in lexical order.
    pub modules: Vec<String>,
}

/// The game config.
#[derive(Debug)]
pub struct Game {
    /// The title.
    pub title: String,
    /// The author.
    pub author: String,
    /// The paragraphs of each locale.
    pub paras: Vec<(String, Vec<Paragraph>)>,
    /// The plugin config.
    pub plugins: PluginConfig,
    /// The global game properties.
    pub props: Vec<(String, String)>,
    /// The resources of each locale.
    pub res: Vec<(String, VarMap)>,
    /// The base language: the fallback when no locale matches.
    pub base_lang: String,
}

/// The primary subtag of a locale tag: the characters before the first
/// separator.
pub open spec fn primary_tag(l: Seq<char>) -> Seq<char>
    decreases l.len(),
{
    if l.len() == 0 {
        Seq::empty()
    } else if l[0] == '-' {
        Seq::empty()
    } else {
        seq![l[0]] + primary_tag(l.drop_first())
    }
}

/// The first key whose primary subtag matches the locale's.
pub open spec fn sp_first_primary(loc: Seq<char>, keys: Seq<Seq<char>>) -> Option<Seq<char>>
    decreases keys.len(),
{
    if keys.len() == 0 {
        None
    } else if primary_tag(keys.first()) == primary_tag(loc) {
        Some(keys.first())
    } else {
        sp_first_primary(loc, keys.drop_first())
    }
}

/// The best match for a locale among keys: the locale itself when some
/// key equals it, else the first key with the same primary subtag, else
/// nothing.
pub open spec fn sp_choose(loc: Seq<char>, keys: Seq<Seq<char>>) -> Option<Seq<char>> {
    if keys.contains(loc) {
        Some(loc)
    } else {
        sp_first_primary(loc, keys)
    }
}

/// A paired lookup: the primary result in the chosen locale and the
/// fallback in the base language. The primary is absent when the chosen
/// key is the base key.
#[derive(Debug)]
pub struct Fallback<T> {
    /// The result in the chosen locale.
    pub primary: Option<T>,
    /// The result in the base language.
    pub fallback: Option<T>,
}

impl<T> Fallback<T> {
    /// Pairs a primary and a fallback result.
    pub fn new(primary: Option<T>, fallback: Option<T>) -> (r: Fallback<T>)
        ensures
            r.primary == primary,
            r.fallback == fallback,
    {
        Fallback { primary, fallback }
    }
}

/// Computes the primary subtag of a locale tag.
#[verifier::loop_isolation(false)]
pub fn primary_of(l: &String) -> (r: String)
    ensures
        r@ == primary_tag(l@),
{
    let n = l.as_str().unicode_len();
    let mut i: usize = 0;
    while i < n && l.as_str().get_char(i) != '-'
        invariant
            0 <= i <= n,
            n == l@.len(),
            forall|k: int| 0 <= k < i ==> l@[k] != '-',
        decreases n - i,
    {
        i = i + 1;
    }
    proof {
        lemma_primary_take(l@, i as int);
    }
    l.as_str().substring_char(0, i).to_owned()
}

proof fn lemma_primary_take(l: Seq<char>, i: int)
    requires
        0 <= i <= l.len(),
        forall|k: int| 0 <= k < i ==> l[k] != '-',
        i < l.len() ==> l[i] == '-',
    ensures
        primary_tag(l) == l.take(i),
    decreases i,
{
    if i == 0 {
        assert(l.take(0) =~= Seq::<char>::empty());
    } else {
        assert(l[0] != '-');
        lemma_primary_take(l.drop_first(), i - 1);
        assert(seq![l[0]] + l.drop_first().take(i - 1) =~= l.take(i));
    }
}

/// Picks the best match for a locale among keys: an exact match first,
/// else the first key sharing the locale's primary subtag.
#[verifier::loop_isolation(false)]
pub fn choose_from<'a>(loc: &String, keys: &'a Vec<String>) -> (r: Option<&'a String>)
    ensures
        match r {
            Some(k) => sp_choose(loc@, keys.deep_view()) == Some(k@),
            None => sp_choose(loc@, keys.deep_view()) is None,
        },
{
    let ghost kv = keys.deep_view();
    let n = keys.len();
    for i in 0..n
        invariant
            n == kv.len(),
            forall|j: int| 0 <= j < i ==> kv[j] != loc@,
    {
        if keys[i].eq(loc) {
            proof {
                assert(kv[i as int] == loc@);
                assert(kv.contains(loc@));
            }
            return Some(&keys[i]);
        }
    }
    proof {
        if kv.contains(loc@) {
            let j = choose|j: int| 0 <= j < kv.len() && kv[j] == loc@;
            assert(false);
        }
    }
    let target = primary_of(loc);
    proof {
        assert(kv.skip(0) =~= kv);
    }
    for i in 0..n
        invariant
            n == kv.len(),
            target@ == primary_tag(loc@),
            !kv.contains(loc@),
            sp_first_primary(loc@, kv) == sp_first_primary(loc@, kv.skip(i as int)),
        decreases n - i,
    {
        let p = primary_of(&keys[i]);
        proof {
            assert(kv.skip(i as int).first() == kv[i as int]);
            assert(kv.skip(i as int).drop_first() =~= kv.skip(i + 1));
        }
        if p.eq(&target) {
            return Some(&keys[i]);
        }
    }
    proof {
        assert(kv.skip(n as int) =~= Seq::<Seq<char>>::empty());
    }
    None
}

/// The first paragraph with a tag among a locale's paragraphs.
pub open spec fn sp_first_para(ps: Seq<ParagraphV>, tag: Seq<char>) -> Option<ParagraphV>
    decreases ps.len(),
{
    if ps.len() == 0 {
        None
    } else if ps.first().tag == tag {
        Some(ps.first())
    } else {
        sp_first_para(ps.drop_first(), tag)
    }
}

/// The paragraph list of the first entry for a locale key.
pub open spec fn sp_paras_of(entries: Seq<(Seq<char>, Seq<ParagraphV>)>, key: Seq<char>) -> Option<
    Seq<ParagraphV>,
>
    decreases entries.len(),
{
    if entries.len() == 0 {
        None
    } else if entries.first().0 == key {
        Some(entries.first().1)
    } else {
        sp_paras_of(entries.drop_first(), key)
    }
}

impl Game {
    /// The paragraph locales, in config order.
    pub open spec fn para_keys(&self) -> Seq<Seq<char>> {
        Seq::new(self.paras@.len(), |i: int| self.paras@[i].0@)
    }

    /// The paragraph table, as views.
    pub open spec fn paras_view(&self) -> Seq<(Seq<char>, Seq<ParagraphV>)> {
        Seq::new(self.paras@.len(), |i: int| (self.paras@[i].0@, self.paras@[i].1.deep_view()))
    }

    /// The key a locale's paragraphs are looked up under: the best match
    /// among the paragraph locales, else the base language.
    pub open spec fn sp_chosen_key(&self, loc: Seq<char>) -> Seq<char> {
        match sp_choose(loc, self.para_keys()) {
            Some(k) => k,
            None => self.base_lang@,
        }
    }

    /// The paragraph a tag names in the locale the key picks.
    pub open spec fn sp_find_para(&self, key: Seq<char>, tag: Seq<char>) -> Option<ParagraphV> {
        match sp_paras_of(self.paras_view(), key) {
            Some(ps) => sp_first_para(ps, tag),
            None => None,
        }
    }

    /// Looks the paragraphs of a locale key up.
    #[verifier::loop_isolation(false)]
    fn paras_of(&self, key: &String) -> (r: Option<&Vec<Paragraph>>)
        ensures
            match r {
                Some(ps) => sp_paras_of(self.paras_view(), key@) == Some(ps.deep_view()),
                None => sp_paras_of(self.paras_view(), key@) is None,
            },
    {
        let ghost pv = self.paras_view();
        let n = self.paras.len();
        proof {
            assert(pv.skip(0) =~= pv);
        }
        for i in 0..n
            invariant
                n == pv.len(),
                sp_paras_of(pv, key@) == sp_paras_of(pv.skip(i as int), key@),
            decreases n - i,
        {
            proof {
                assert(pv.skip(i as int).first() == pv[i as int]);
                assert(pv.skip(i as int).drop_first() =~= pv.skip(i + 1));
            }
            if self.paras[i].0.eq(key) {
                return Some(&self.paras[i].1);
            }
        }
        proof {
            assert(pv.skip(n as int) =~= Seq::<(Seq<char>, Seq<ParagraphV>)>::empty());
        }
        None
    }

    /// Finds the first paragraph with a tag in a locale key's list.
    #[verifier::loop_isolation(false)]
    pub fn find_para(&self, key: &String, tag: &String) -> (r: Option<&Paragraph>)
        ensures
            match r {
                Some(p) => self.sp_find_para(key@, tag@) == Some(p.deep_view()),
                None => self.sp_find_para(key@, tag@) is None,
            },
    {
        let ps = match self.paras_of(key) {
            Some(ps) => ps,
            None => {
                return None;
            },
        };
        let ghost psv = ps.deep_view();
        let n = ps.len();
        proof {
            assert(psv.skip(0) =~= psv);
        }
        for i in 0..n
            invariant
                n == psv.len(),
                sp_first_para(psv, tag@) == sp_first_para(psv.skip(i as int), tag@),
            decreases n - i,
        {
            proof {
                assert(psv.skip(i as int).first() == psv[i as int]);
                assert(psv.skip(i as int).drop_first() =~= psv.skip(i + 1));
            }
            if ps[i].tag.eq(tag) {
                return Some(&ps[i]);
            }
        }
        proof {
            assert(psv.skip(n as int) =~= Seq::<ParagraphV>::empty());
        }
        None
    }

    /// The key list of the paragraph locales.
    #[verifier::loop_isolation(false)]
    fn para_key_list(&self) -> (r: Vec<String>)
        ensures
            r.deep_view() == self.para_keys(),
    {
        let mut keys: Vec<String> = Vec::new();
        let n = self.paras.len();
        for i in 0..n
            invariant
                n == self.paras@.len(),
                keys@.len() == i,
                forall|j: int| 0 <= j < i ==> (#[trigger] keys@[j])@ == self.paras@[j].0@,
        {
            keys.push(self.paras[i].0.clone());
        }
        proof {
            assert(keys.deep_view() =~= self.para_keys());
        }
        keys
    }

    /// Finds a paragraph by tag, with the locale fallback pairing: the
    /// primary in the chosen locale, the fallback in the base language;
    /// the primary is absent when the chosen key is the base key.
    pub fn find_para_fallback(&self, loc: &String, tag: &String) -> (r: Fallback<&Paragraph>)
        ensures
            ({
                let key = self.sp_chosen_key(loc@);
                let base_key = self.sp_chosen_key(self.base_lang@);
                &&& (key == base_key ==> r.primary is None)
                &&& (key != base_key ==> match r.primary {
                    Some(p) => self.sp_find_para(key, tag@) == Some(p.deep_view()),
                    None => self.sp_find_para(key, tag@) is None,
                })
                &&& match r.fallback {
                    Some(p) => self.sp_find_para(base_key, tag@) == Some(p.deep_view()),
                    None => self.sp_find_para(base_key, tag@) is None,
                }
            }),
    {
        let keys = self.para_key_list();
        let key: String = match choose_from(loc, &keys) {
            Some(k) => k.clone(),
            None => self.base_lang.clone(),
        };
        let base_key: String = match choose_from(&self.base_lang, &keys) {
            Some(k) => k.clone(),
            None => self.base_lang.clone(),
        };
        let primary = if key.eq(&base_key) {
            None
        } else {
            self.find_para(&key, tag)
        };
        let fallback = self.find_para(&base_key, tag);
        Fallback::new(primary, fallback)
    }
}


/// The resource table of the first entry for a locale key.
pub open spec fn sp_res_of(
    entries: Seq<(Seq<char>, Seq<(Seq<char>, crate::value::ValueV)>)>,
    key: Seq<char>,
) -> Option<Seq<(Seq<char>, crate::value::ValueV)>>
    decreases entries.len(),
{
    if entries.len() == 0 {
        None
    } else if entries.first().0 == key {
        Some(entries.first().1)
    } else {
        sp_res_of(entries.drop_first(), key)
    }
}

impl Game {
    /// The resource locales, in config order.
    pub open spec fn res_keys(&self) -> Seq<Seq<char>> {
        Seq::new(self.res@.len(), |i: int| self.res@[i].0@)
    }

    /// The resource table, as views.
    pub open spec fn res_view(&self) -> Seq<(Seq<char>, Seq<(Seq<char>, crate::value::ValueV)>)> {
        Seq::new(self.res@.len(), |i: int| (self.res@[i].0@, self.res@[i].1@))
    }

    /// The key a locale's resources are looked up under.
    pub open spec fn sp_chosen_res_key(&self, loc: Seq<char>) -> Seq<char> {
        match sp_choose(loc, self.res_keys()) {
            Some(k) => k,
            None => self.base_lang@,
        }
    }

    /// Looks the resources of a locale key up.
    #[verifier::loop_isolation(false)]
    fn res_of(&self, key: &String) -> (r: Option<&VarMap>)
        ensures
            match r {
                Some(m) => sp_res_of(self.res_view(), key@) == Some(m@),
                None => sp_res_of(self.res_view(), key@) is None,
            },
    {
        let ghost rv = self.res_view();
        let n = self.res.len();
        proof {
            assert(rv.skip(0) =~= rv);
        }
        for i in 0..n
            invariant
                n == rv.len(),
                sp_res_of(rv, key@) == sp_res_of(rv.skip(i as int), key@),
            decreases n - i,
        {
            proof {
                assert(rv.skip(i as int).first() == rv[i as int]);
                assert(rv.skip(i as int).drop_first() =~= rv.skip(i + 1));
            }
            if self.res[i].0.eq(key) {
                return Some(&self.res[i].1);
            }
        }
        proof {
            assert(rv.skip(n as int) =~= Seq::<
                (Seq<char>, Seq<(Seq<char>, crate::value::ValueV)>),
            >::empty());
        }
        None
    }

    /// The key list of the resource locales.
    #[verifier::loop_isolation(false)]
    fn res_key_list(&self) -> (r: Vec<String>)
        ensures
            r.deep_view() == self.res_keys(),
    {
        let mut keys: Vec<String> = Vec::new();
        let n = self.res.len();
        for i in 0..n
            invariant
                n == self.res@.len(),
                keys@.len() == i,
                forall|j: int| 0 <= j < i ==> (#[trigger] keys@[j])@ == self.res@[j].0@,
        {
            keys.push(self.res[i].0.clone());
        }
        proof {
            assert(keys.deep_view() =~= self.res_keys());
        }
        keys
    }

    /// Finds the resource table with the locale fallback pairing: the
    /// primary in the chosen locale, the fallback in the base language;
    /// the primary is absent when the chosen key is the base key.
    pub fn find_res_fallback(&self, loc: &String) -> (r: Fallback<&VarMap>)
        ensures
            ({
                let key = self.sp_chosen_res_key(loc@);
                let base_key = self.sp_chosen_res_key(self.base_lang@);
                &&& (key == base_key ==> r.primary is None)
                &&& (key != base_key ==> match r.primary {
                    Some(m) => sp_res_of(self.res_view(), key) == Some(m@),
                    None => sp_res_of(self.res_view(), key) is None,
                })
                &&& match r.fallback {
                    Some(m) => sp_res_of(self.res_view(), base_key) == Some(m@),
                    None => sp_res_of(self.res_view(), base_key) is None,
                }
            }),
    {
        let keys = self.res_key_list();
        let key: String = match choose_from(loc, &keys) {
            Some(k) => k.clone(),
            None => self.base_lang.clone(),
        };
        let base_key: String = match choose_from(&self.base_lang, &keys) {
            Some(k) => k.clone(),
            None => self.base_lang.clone(),
        };
        let primary = if key.eq(&base_key) {
            None
        } else {
            self.res_of(&key)
        };
        let fallback = self.res_of(&base_key);
        Fallback::new(primary, fallback)
    }
}

} // verus!
