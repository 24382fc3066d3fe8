//! The interface language and its messages.
//!
//! Detection order: the setting saved by the `language` command, then the `LANGUAGE`, `LC_ALL`
//! and `LANG` environment variables, then the system UI language, then English.
use vstd::prelude::*;
use vstd::string::*;

use crate::editor::Platform;
use crate::failure::{Failure, FailureView};
use crate::locales::{en_entries, en_table, table_view, zh_entries, zh_table, Table};
use crate::numbers::decimal;
use crate::text::{replace, starts_with, str_eq, to_ascii_lowercase, trim};

verus! {

/// A supported interface language.
#[derive(Debug, Clone, Copy, PartialEq, Eq, Structural)]
pub enum Language {
    En,
    Zh,
}

/// The codes of the supported languages.
pub const AVAILABLE: [&'static str; 2] = ["en", "zh"];

/// The codes of the supported languages in one text.
pub open spec fn available_text() -> Seq<char> {
    AVAILABLE[0]@ + ", "@ + AVAILABLE[1]@
}

/// The code of a language.
pub open spec fn code_of(lang: Language) -> Seq<char> {
    match lang {
        Language::En => "en"@,
        Language::Zh => "zh"@,
    }
}

impl Language {
    /// The code of the language.
    pub fn code(self) -> (r: &'static str)
        ensures
            r@ == code_of(self),
    {
        match self {
            Language::En => "en",
            Language::Zh => "zh",
        }
    }
}

/// The message tables of the supported languages.
pub struct Tables {
    pub en: Vec<(&'static str, &'static str)>,
    pub zh: Vec<(&'static str, &'static str)>,
}

/// The message tables.
pub fn tables() -> (r: Tables)
    ensures
        table_view(r.en@) == en_table(),
        table_view(r.zh@) == zh_table(),
{
    Tables { en: en_entries(), zh: zh_entries() }
}

/// The text that a table has under `key`, from position `from` on.
pub open spec fn table_text_from(table: Table, key: Seq<char>, from: int) -> Option<Seq<char>>
    decreases table.len() - from,
{
    if 0 <= from < table.len() {
        if table[from].0 == key {
            Some(table[from].1)
        } else {
            table_text_from(table, key, from + 1)
        }
    } else {
        None
    }
}

/// The text that a table has under `key`.
pub open spec fn table_text(table: Table, key: Seq<char>) -> Option<Seq<char>> {
    table_text_from(table, key, 0)
}

/// The table of a language.
pub open spec fn table_of(lang: Language) -> Table {
    match lang {
        Language::En => en_table(),
        Language::Zh => zh_table(),
    }
}

/// The message for `key`: the text of the language, or else the English text, or else the key.
pub open spec fn message_of(lang: Language, key: Seq<char>) -> Seq<char> {
    match table_text(table_of(lang), key) {
        Some(s) => s,
        None => match table_text(en_table(), key) {
            Some(s) => s,
            None => key,
        },
    }
}

/// The text that a table has under `key`.
fn look_up(table: &Vec<(&'static str, &'static str)>, key: &str) -> (r: Option<&'static str>)
    ensures
        crate::text::opt_str_view(r) == table_text(table_view(table@), key@),
{
    let mut i: usize = 0;
    while i < table.len()
        invariant
            i <= table@.len(),
            table_text(table_view(table@), key@) == table_text_from(
                table_view(table@),
                key@,
                i as int,
            ),
        decreases table@.len() - i,
    {
        if str_eq(table[i].0, key) {
            return Some(table[i].1);
        }
        i = i + 1;
    }
    None
}

/// The message for `key` without parameters; English where the language lacks it, the key itself
/// where English lacks it too.
pub fn t<'a>(lang: Language, key: &'a str) -> (r: &'a str)
    ensures
        r@ == message_of(lang, key@),
{
    let tb = tables();
    let primary = match lang {
        Language::Zh => look_up(&tb.zh, key),
        Language::En => look_up(&tb.en, key),
    };
    match primary {
        Some(s) => s,
        None => match look_up(&tb.en, key) {
            Some(s) => s,
            None => key,
        },
    }
}

/// The views of the parameters of a message.
pub open spec fn arg_views(args: Seq<&str>) -> Seq<Seq<char>> {
    Seq::new(args.len(), |i: int| args[i]@)
}

/// The placeholder for parameter `i`.
pub open spec fn placeholder(i: nat) -> Seq<char> {
    "{"@ + crate::numbers::decimal_of(i) + "}"@
}

/// `s` with the placeholders of the first `n` parameters replaced, one parameter after another.
pub open spec fn filled(s: Seq<char>, args: Seq<Seq<char>>, n: nat) -> Seq<char>
    decreases n,
{
    if n == 0 || n > args.len() {
        s
    } else {
        crate::text::replace_of(
            filled(s, args, (n - 1) as nat),
            placeholder((n - 1) as nat),
            args[n - 1],
        )
    }
}

/// The message for `key` with its parameters in their places.
pub open spec fn message_with(lang: Language, key: Seq<char>, args: Seq<Seq<char>>) -> Seq<char> {
    filled(message_of(lang, key), args, args.len())
}

/// The message for `key`, with `{0}`, `{1}` and so on replaced by `args` in their order.
pub fn tr(lang: Language, key: &str, args: &[&str]) -> (r: String)
    ensures
        r@ == message_with(lang, key@, arg_views(args@)),
{
    let mut s = t(lang, key).to_owned();
    let n: usize = args.len();
    let mut i: usize = 0;
    while i < n
        invariant
            i <= n,
            n == args@.len(),
            s@ == filled(message_of(lang, key@), arg_views(args@), i as nat),
        decreases n - i,
    {
        let mut mark = "{".to_owned();
        mark.append(decimal(i as u64).as_str());
        mark.append("}");
        proof {
            crate::numbers::lemma_decimal_digits(i as nat);
        }
        s = replace(s.as_str(), mark.as_str(), args[i]);
        i = i + 1;
    }
    s
}

/// The message for `key` with one parameter.
pub(crate) fn tr1(lang: Language, key: &str, a: &str) -> (r: String)
    ensures
        r@ == message_with(lang, key@, seq![a@]),
{
    let args: Vec<&str> = vec![a];
    assert(arg_views(args@) =~= seq![a@]);
    tr(lang, key, args.as_slice())
}

/// The message for `key` with two parameters.
pub(crate) fn tr2(lang: Language, key: &str, a: &str, b: &str) -> (r: String)
    ensures
        r@ == message_with(lang, key@, seq![a@, b@]),
{
    let args: Vec<&str> = vec![a, b];
    assert(arg_views(args@) =~= seq![a@, b@]);
    tr(lang, key, args.as_slice())
}

/// The message for `key` with three parameters.
pub(crate) fn tr3(lang: Language, key: &str, a: &str, b: &str, c: &str) -> (r: String)
    ensures
        r@ == message_with(lang, key@, seq![a@, b@, c@]),
{
    let args: Vec<&str> = vec![a, b, c];
    assert(arg_views(args@) =~= seq![a@, b@, c@]);
    tr(lang, key, args.as_slice())
}

/// `zh_CN.UTF-8` is Chinese, `en_US` is English, anything else is neither.
pub open spec fn language_of(code: Seq<char>) -> Option<Language> {
    let c = crate::text::ascii_lower(crate::text::trim_of(code));
    if "zh"@.is_prefix_of(c) {
        Some(Language::Zh)
    } else if "en"@.is_prefix_of(c) {
        Some(Language::En)
    } else {
        None
    }
}

/// The language that a code names: `zh_CN.UTF-8` is Chinese, `en_US` is English.
pub fn normalize(code: &str) -> (r: Option<Language>)
    ensures
        r == language_of(code@),
{
    let c = to_ascii_lowercase(trim(code).as_str());
    if starts_with(c.as_str(), "zh") {
        Some(Language::Zh)
    } else if starts_with(c.as_str(), "en") {
        Some(Language::En)
    } else {
        None
    }
}

/// The language of a Windows language identifier: its low ten bits are the primary language,
/// `0x04` for Chinese and `0x09` for English.
pub open spec fn system_language(langid: u16) -> Option<Language> {
    if langid & 0x3ff == 0x04 {
        Some(Language::Zh)
    } else if langid & 0x3ff == 0x09 {
        Some(Language::En)
    } else {
        None
    }
}

/// The system UI language, from its Windows language identifier.
pub fn system_lang(langid: u16) -> (r: Option<Language>)
    ensures
        r == system_language(langid),
{
    let primary: u16 = langid & 0x3ff;
    if primary == 0x04 {
        Some(Language::Zh)
    } else if primary == 0x09 {
        Some(Language::En)
    } else {
        None
    }
}

/// The first language that one of the variables from `from` on names.
pub open spec fn variable_language(vars: Seq<Option<Seq<char>>>, from: int) -> Option<Language>
    decreases vars.len() - from,
{
    if 0 <= from < vars.len() {
        match vars[from] {
            Some(v) => match language_of(v) {
                Some(lang) => Some(lang),
                None => variable_language(vars, from + 1),
            },
            None => variable_language(vars, from + 1),
        }
    } else {
        None
    }
}

/// The views of a list of optional strings.
pub open spec fn opt_views(vars: Seq<Option<String>>) -> Seq<Option<Seq<char>>> {
    Seq::new(vars.len(), |i: int| crate::text::opt_view(vars[i]))
}

/// The language that detection settles on.
pub open spec fn detected(
    saved: Option<Seq<char>>,
    vars: Seq<Option<Seq<char>>>,
    langid: Option<u16>,
) -> Language {
    let from_saved = match saved {
        Some(s) => language_of(s),
        None => None,
    };
    let from_system = match langid {
        Some(id) => system_language(id),
        None => None,
    };
    match from_saved {
        Some(lang) => lang,
        None => match variable_language(vars, 0) {
            Some(lang) => lang,
            None => match from_system {
                Some(lang) => lang,
                None => Language::En,
            },
        },
    }
}

/// Detects the interface language: the saved setting, then the environment variables in their
/// order, then the system UI language, then English.
pub fn detect(saved: Option<&str>, vars: &Vec<Option<String>>, langid: Option<u16>) -> (r: Language)
    ensures
        r == detected(crate::text::opt_str_view(saved), opt_views(vars@), langid),
{
    match saved {
        Some(s) => match normalize(s) {
            Some(lang) => {
                return lang;
            },
            None => {},
        },
        None => {},
    }
    let mut i: usize = 0;
    while i < vars.len()
        invariant
            i <= vars@.len(),
            variable_language(opt_views(vars@), 0) == variable_language(
                opt_views(vars@),
                i as int,
            ),
            match saved {
                Some(s) => language_of(s@) is None,
                None => true,
            },
        decreases vars@.len() - i,
    {
        match &vars[i] {
            Some(v) => match normalize(v.as_str()) {
                Some(lang) => {
                    return lang;
                },
                None => {},
            },
            None => {},
        }
        i = i + 1;
    }
    match langid {
        Some(id) => match system_lang(id) {
            Some(lang) => lang,
            None => Language::En,
        },
        None => Language::En,
    }
}

/// Determines the interface language of this run.
pub fn init(saved: Option<&str>, vars: &Vec<Option<String>>, langid: Option<u16>) -> (r: Language)
    ensures
        r == detected(crate::text::opt_str_view(saved), opt_views(vars@), langid),
{
    detect(saved, vars, langid)
}

/// The language in effect: the one determined at the start, English before that.
pub fn current(active: Option<Language>) -> (r: Language)
    ensures
        r == match active {
            Some(lang) => lang,
            None => Language::En,
        },
{
    match active {
        Some(lang) => lang,
        None => Language::En,
    }
}

/// What a language setting comes to: the language to save, or the failure.
pub open spec fn setting_of(lang: Language, code: Seq<char>, has_config_dir: bool) -> Result<
    Language,
    FailureView,
> {
    match language_of(code) {
        None => Err(
            FailureView::Message(message_with(lang, "language.invalid"@, seq![code, available_text()])),
        ),
        Some(chosen) => if has_config_dir {
            Ok(chosen)
        } else {
            Err(FailureView::Message(message_of(lang, "language.no_config_dir"@)))
        },
    }
}

/// Checks a language setting: the language whose code is to be saved, a failure for a code that
/// names no supported language or where there is no configuration directory to save it in.
pub fn set(lang: Language, code: &str, has_config_dir: bool) -> (r: Result<Language, Failure>)
    ensures
        match r {
            Ok(chosen) => setting_of(lang, code@, has_config_dir) == Ok::<Language, FailureView>(
                chosen,
            ),
            Err(e) => setting_of(lang, code@, has_config_dir) == Err::<Language, FailureView>(e@),
        },
{
    match normalize(code) {
        None => {
            let mut available = AVAILABLE[0].to_owned();
            available.append(", ");
            available.append(AVAILABLE[1]);
            Err(Failure::Message(tr2(lang, "language.invalid", code, available.as_str())))
        },
        Some(chosen) => if has_config_dir {
            Ok(chosen)
        } else {
            Err(Failure::new(t(lang, "language.no_config_dir")))
        },
    }
}

/// The codes of the supported languages are those that are available, in their order.
pub proof fn available_codes_are_supported(i: int)
    requires
        0 <= i < 2,
    ensures
        language_of(AVAILABLE[i]@) == Some(
            if i == 0 {
                Language::En
            } else {
                Language::Zh
            },
        ),
        AVAILABLE[i]@ == code_of(language_of(AVAILABLE[i]@)->0),
{
    let lang = if i == 0 {
        Language::En
    } else {
        Language::Zh
    };
    assert(AVAILABLE[i]@ == code_of(lang));
    lemma_code(lang);
}

/// A key has an English text exactly where it has a Chinese one.
pub proof fn languages_share_their_keys(key: Seq<char>)
    ensures
        table_text(en_table(), key) is Some == table_text(zh_table(), key) is Some,
{
    crate::locales::locales_have_the_same_keys();
    lemma_share_from(key, 0);
}

proof fn lemma_share_from(key: Seq<char>, from: int)
    requires
        0 <= from,
        en_table().len() == zh_table().len(),
        forall|i: int| 0 <= i < en_table().len() ==> (#[trigger] en_table()[i]).0 == zh_table()[i].0,
    ensures
        table_text_from(en_table(), key, from) is Some == table_text_from(
            zh_table(),
            key,
            from,
        ) is Some,
    decreases en_table().len() - from,
{
    if from < en_table().len() {
        assert(en_table()[from].0 == zh_table()[from].0);
        lemma_share_from(key, from + 1);
    }
}

/// The code of a language names it.
proof fn lemma_code(lang: Language)
    ensures
        language_of(code_of(lang)) == Some(lang),
{
    reveal_strlit("en");
    reveal_strlit("zh");
    let c = code_of(lang);
    crate::text::lemma_skip_white(c, 0);
    crate::text::lemma_drop_white(c, 2);
    assert(crate::text::trim_start_of(c) =~= c);
    assert(crate::text::trim_of(c) =~= c);
    assert(crate::text::ascii_lower(c) =~= c);
    assert("zh"@.is_prefix_of("en"@) == false) by {
        assert("zh"@[0] != "en"@[0]);
    }
}

/// A language that was set is the one that the next run detects, whatever the environment says.
pub proof fn saved_language_wins(lang: Language, vars: Seq<Option<Seq<char>>>, langid: Option<u16>)
    ensures
        detected(Some(code_of(lang)), vars, langid) == lang,
{
    lemma_code(lang);
}

/// A place below which the settings are kept.
#[derive(Debug, Clone, Copy, PartialEq, Eq, Structural)]
pub enum ConfigBase {
    /// The directory that `APPDATA` names.
    AppData,
    /// `Library/Application Support` in the home directory.
    HomeLibrary,
    /// The directory that `XDG_CONFIG_HOME` names.
    XdgConfig,
    /// `.config` in the home directory.
    HomeConfig,
}

/// The place below which the settings are kept on a platform, given which variables are set; `None`
/// where the one that it takes is not.
pub open spec fn config_base_of(
    platform: Platform,
    has_appdata: bool,
    has_xdg: bool,
    has_home: bool,
) -> Option<ConfigBase> {
    match platform {
        Platform::Windows => if has_appdata {
            Some(ConfigBase::AppData)
        } else {
            None
        },
        Platform::MacOs => if has_home {
            Some(ConfigBase::HomeLibrary)
        } else {
            None
        },
        Platform::Other => if has_xdg {
            Some(ConfigBase::XdgConfig)
        } else if has_home {
            Some(ConfigBase::HomeConfig)
        } else {
            None
        },
    }
}

/// The place below which the settings are kept on a platform, given whether `APPDATA`,
/// `XDG_CONFIG_HOME` and `HOME` are set.
pub fn config_dir(platform: Platform, has_appdata: bool, has_xdg: bool, has_home: bool) -> (r:
    Option<ConfigBase>)
    ensures
        r == config_base_of(platform, has_appdata, has_xdg, has_home),
{
    match platform {
        Platform::Windows => if has_appdata {
            Some(ConfigBase::AppData)
        } else {
            None
        },
        Platform::MacOs => if has_home {
            Some(ConfigBase::HomeLibrary)
        } else {
            None
        },
        Platform::Other => if has_xdg {
            Some(ConfigBase::XdgConfig)
        } else if has_home {
            Some(ConfigBase::HomeConfig)
        } else {
            None
        },
    }
}

/// The language that an optional text names.
pub open spec fn named_language(text: Option<Seq<char>>) -> Option<Language> {
    match text {
        Some(v) => language_of(v),
        None => None,
    }
}

proof fn lemma_first_variable(vars: Seq<Option<Seq<char>>>, from: int, to: int)
    requires
        0 <= from <= to <= vars.len(),
        forall|j: int| from <= j < to ==> named_language(#[trigger] vars[j]) is None,
    ensures
        variable_language(vars, from) == variable_language(vars, to),
    decreases to - from,
{
    if from < to {
        assert(named_language(vars[from]) is None);
        lemma_first_variable(vars, from + 1, to);
    }
}

/// Where no language was set, the first variable that names one decides, whatever later variables
/// and the system say.
pub proof fn first_variable_wins(
    saved: Option<Seq<char>>,
    vars: Seq<Option<Seq<char>>>,
    i: int,
    langid: Option<u16>,
)
    requires
        named_language(saved) is None,
        0 <= i < vars.len(),
        named_language(vars[i]) is Some,
        forall|j: int| 0 <= j < i ==> named_language(#[trigger] vars[j]) is None,
    ensures
        detected(saved, vars, langid) == named_language(vars[i])->0,
{
    lemma_first_variable(vars, 0, i);
}

/// Where nothing else names a language, the system decides, and English where that does not.
pub proof fn system_decides_last(
    saved: Option<Seq<char>>,
    vars: Seq<Option<Seq<char>>>,
    langid: Option<u16>,
)
    requires
        named_language(saved) is None,
        forall|j: int| 0 <= j < vars.len() ==> named_language(#[trigger] vars[j]) is None,
    ensures
        detected(saved, vars, langid) == match langid {
            Some(id) => match system_language(id) {
                Some(lang) => lang,
                None => Language::En,
            },
            None => Language::En,
        },
{
    lemma_first_variable(vars, 0, vars.len() as int);
}

proof fn lemma_first_text(table: Table, key: Seq<char>, from: int, i: int)
    requires
        0 <= from <= i <= table.len(),
        i < table.len() ==> table[i].0 == key,
        forall|j: int| from <= j < i ==> (#[trigger] table[j]).0 != key,
    ensures
        i < table.len() ==> table_text_from(table, key, from) == Some(table[i].1),
        i == table.len() ==> table_text_from(table, key, from) is None,
    decreases i - from,
{
    if from < i {
        lemma_first_text(table, key, from + 1, i);
    }
}

/// A message is the text that the language's own table has for its key, and the key itself where
/// neither the language nor English has one.
pub proof fn messages_are_in_the_language(key: Seq<char>, i: int)
    ensures
        0 <= i < en_table().len() && en_table()[i].0 == key && (forall|j: int|
            0 <= j < i ==> (#[trigger] en_table()[j]).0 != key) ==> message_of(Language::En, key)
            == en_table()[i].1,
        0 <= i < zh_table().len() && zh_table()[i].0 == key && (forall|j: int|
            0 <= j < i ==> (#[trigger] zh_table()[j]).0 != key) ==> message_of(Language::Zh, key)
            == zh_table()[i].1,
        (forall|j: int| 0 <= j < en_table().len() ==> (#[trigger] en_table()[j]).0 != key)
            ==> message_of(Language::En, key) == key,
        (forall|j: int| 0 <= j < en_table().len() ==> (#[trigger] en_table()[j]).0 != key) && (
        forall|j: int| 0 <= j < zh_table().len() ==> (#[trigger] zh_table()[j]).0 != key)
            ==> message_of(Language::Zh, key) == key,
{
    let en = en_table();
    let zh = zh_table();
    if 0 <= i < en.len() && en[i].0 == key && (forall|j: int|
        0 <= j < i ==> (#[trigger] en[j]).0 != key) {
        lemma_first_text(en, key, 0, i);
    }
    if 0 <= i < zh.len() && zh[i].0 == key && (forall|j: int|
        0 <= j < i ==> (#[trigger] zh[j]).0 != key) {
        lemma_first_text(zh, key, 0, i);
    }
    if forall|j: int| 0 <= j < en.len() ==> (#[trigger] en[j]).0 != key {
        lemma_first_text(en, key, 0, en.len() as int);
    }
    if forall|j: int| 0 <= j < zh.len() ==> (#[trigger] zh[j]).0 != key {
        lemma_first_text(zh, key, 0, zh.len() as int);
    }
}

/// Each argument stands where its number stands in the message, one after the other.
pub proof fn arguments_take_their_places(
    lang: Language,
    key: Seq<char>,
    a: Seq<char>,
    b: Seq<char>,
    c: Seq<char>,
)
    ensures
        ({
            let text = message_of(lang, key);
            let one = crate::text::replace_of(text, "{0}"@, a);
            let two = crate::text::replace_of(one, "{1}"@, b);
            &&& message_with(lang, key, seq![]) == text
            &&& message_with(lang, key, seq![a]) == one
            &&& message_with(lang, key, seq![a, b]) == two
            &&& message_with(lang, key, seq![a, b, c]) == crate::text::replace_of(two, "{2}"@, c)
        }),
{
    reveal_strlit("{");
    reveal_strlit("}");
    reveal_strlit("{0}");
    reveal_strlit("{1}");
    reveal_strlit("{2}");
    assert(placeholder(0) =~= "{0}"@);
    assert(placeholder(1) =~= "{1}"@);
    assert(placeholder(2) =~= "{2}"@);
    let text = message_of(lang, key);
    assert(filled(text, seq![a], 0) == text);
    assert(filled(text, seq![a, b], 0) == text);
    assert(filled(text, seq![a, b, c], 0) == text);
    assert(filled(text, seq![a], 1) == crate::text::replace_of(text, "{0}"@, a));
    assert(filled(text, seq![a, b], 1) == crate::text::replace_of(text, "{0}"@, a));
    assert(filled(text, seq![a, b, c], 1) == crate::text::replace_of(text, "{0}"@, a));
    let one = crate::text::replace_of(text, "{0}"@, a);
    assert(filled(text, seq![a, b], 2) == crate::text::replace_of(one, "{1}"@, b));
    assert(filled(text, seq![a, b, c], 2) == crate::text::replace_of(one, "{1}"@, b));
}

/// A code names the language that it begins with, in whatever case and with white space around it;
/// any other code names none.
pub proof fn codes_name_languages(code: Seq<char>)
    ensures
        ({
            let lower = crate::text::ascii_lower(crate::text::trim_of(code));
            let zh = lower.len() >= 2 && lower[0] == 'z' && lower[1] == 'h';
            let en = lower.len() >= 2 && lower[0] == 'e' && lower[1] == 'n';
            &&& zh ==> language_of(code) == Some(Language::Zh)
            &&& en ==> language_of(code) == Some(Language::En)
            &&& !zh && !en ==> language_of(code) is None
        }),
{
    reveal_strlit("zh");
    reveal_strlit("en");
    let lower = crate::text::ascii_lower(crate::text::trim_of(code));
    if lower.len() >= 2 {
        let two = lower.take(2);
        assert(lower.subrange(0, 2) =~= two);
        if lower[0] == 'z' && lower[1] == 'h' {
            assert(two =~= "zh"@);
        }
        if lower[0] == 'e' && lower[1] == 'n' {
            assert(two =~= "en"@);
        }
        if "zh"@.is_prefix_of(lower) {
            assert(lower.subrange(0, 2)[0] == 'z' && lower.subrange(0, 2)[1] == 'h');
        }
        if "en"@.is_prefix_of(lower) {
            assert(lower.subrange(0, 2)[0] == 'e' && lower.subrange(0, 2)[1] == 'n');
        }
    }
}

/// The system's language is its primary one, whatever the region is.
pub proof fn primary_languages_count(langid: u16)
    ensures
        langid % 1024 == 4 ==> system_language(langid) == Some(Language::Zh),
        langid % 1024 == 9 ==> system_language(langid) == Some(Language::En),
        langid % 1024 != 4 && langid % 1024 != 9 ==> system_language(langid) is None,
{
    assert(langid & 0x3ff == langid % 1024) by (bit_vector);
}

/// A language that is supported is set where it can be kept; one that is not is refused with those
/// that are.
pub proof fn supported_languages_are_set(lang: Language, code: Seq<char>, chosen: Language, kept: bool)
    ensures
        language_of(code) == Some(chosen) ==> setting_of(lang, code, true) == Ok::<
            Language,
            FailureView,
        >(chosen) && setting_of(lang, code, false) == Err::<Language, FailureView>(
            FailureView::Message(message_of(lang, "language.no_config_dir"@)),
        ),
        language_of(code) is None ==> setting_of(lang, code, kept) == Err::<Language, FailureView>(
            FailureView::Message(
                message_with(lang, "language.invalid"@, seq![code, "en"@ + ", "@ + "zh"@]),
            ),
        ),
        code_of(Language::En) == "en"@,
        code_of(Language::Zh) == "zh"@,
{
    assert(available_text() == "en"@ + ", "@ + "zh"@);
}

/// The settings are kept where the platform keeps them, and nowhere where it names no place.
pub proof fn settings_are_kept_by_platform(xdg: bool, home: bool, appdata: bool)
    ensures
        config_base_of(Platform::Windows, true, xdg, home) == Some(ConfigBase::AppData),
        config_base_of(Platform::Windows, false, xdg, home) is None,
        config_base_of(Platform::MacOs, appdata, xdg, true) == Some(ConfigBase::HomeLibrary),
        config_base_of(Platform::MacOs, appdata, xdg, false) is None,
        config_base_of(Platform::Other, appdata, true, home) == Some(ConfigBase::XdgConfig),
        config_base_of(Platform::Other, appdata, false, true) == Some(ConfigBase::HomeConfig),
        config_base_of(Platform::Other, appdata, false, false) is None,
{
}

} // verus!
