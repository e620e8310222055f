//! Language support of the speech engine and the engine-independent parts of
//! a transcription: reading the configured language, assembling the result of
//! the decoder's segments, the engine settings and model description, and the
//! turn order of an engine pool.
use vstd::prelude::*;
use crate::text::{str_eq, owned, push_str, trim, trimmed, str_eq_ignore_ascii_case, eq_ignore_ascii_case};
use crate::backend::models::TranscriptionSegment;
use crate::backend::config::Config;

verus! {

/// The first value stored under `key` in an association list.
pub open spec fn assoc_lookup<V>(entries: Seq<(Seq<char>, V)>, key: Seq<char>) -> Option<V>
    decreases entries.len(),
{
    if entries.len() == 0 {
        None
    } else if entries[0].0 == key {
        Some(entries[0].1)
    } else {
        assoc_lookup(entries.drop_first(), key)
    }
}

/// Looking a key up finds the first entry that carries it.
pub proof fn lemma_assoc_lookup_index<V>(entries: Seq<(Seq<char>, V)>, key: Seq<char>, i: int)
    requires
        0 <= i < entries.len(),
        entries[i].0 == key,
        forall|j: int| 0 <= j < i ==> entries[j].0 != key,
    ensures
        assoc_lookup(entries, key) == Some(entries[i].1),
    decreases i,
{
    if i > 0 {
        lemma_assoc_lookup_index(entries.drop_first(), key, i - 1);
    }
}

/// Looking up a key that no entry carries finds nothing.
pub proof fn lemma_assoc_lookup_absent<V>(entries: Seq<(Seq<char>, V)>, key: Seq<char>)
    requires
        forall|j: int| 0 <= j < entries.len() ==> entries[j].0 != key,
    ensures
        assoc_lookup(entries, key) is None,
    decreases entries.len(),
{
    if entries.len() > 0 {
        lemma_assoc_lookup_absent(entries.drop_first(), key);
    }
}

/// Looking up a key that some entry carries finds the value of one of the entries carrying it.
pub proof fn lemma_assoc_lookup_present<V>(entries: Seq<(Seq<char>, V)>, i: int)
    requires
        0 <= i < entries.len(),
    ensures
        exists|j: int|
            0 <= j <= i && entries[j].0 == entries[i].0 && assoc_lookup(entries, entries[i].0)
                == Some(#[trigger] entries[j].1),
    decreases i,
{
    if entries[0].0 == entries[i].0 {
        assert(entries[0].0 == entries[i].0 && assoc_lookup(entries, entries[i].0) == Some(
            entries[0].1,
        ));
    } else {
        lemma_assoc_lookup_present(entries.drop_first(), i - 1);
        let j = choose|j: int|
            0 <= j <= i - 1 && entries.drop_first()[j].0 == entries.drop_first()[i - 1].0
                && assoc_lookup(entries.drop_first(), entries.drop_first()[i - 1].0) == Some(
                #[trigger] entries.drop_first()[j].1,
            );
        assert(entries[j + 1].1 == entries.drop_first()[j].1);
    }
}

/// The number of languages the engine recognises.
pub const LANGUAGE_COUNT: usize = 100;

/// The `i`-th supported language as a (code, English name) pair;
/// `auto` stands for automatic detection.
pub open spec fn language_entry(i: int) -> (Seq<char>, Seq<char>) {
    if i == 0 {
        ("auto"@, "Auto Detect"@)
    } else
    if i == 1 {
        ("en"@, "English"@)
    } else
    if i == 2 {
        ("zh"@, "Chinese"@)
    } else
    if i == 3 {
        ("de"@, "German"@)
    } else
    if i == 4 {
        ("es"@, "Spanish"@)
    } else
    if i == 5 {
        ("ru"@, "Russian"@)
    } else
    if i == 6 {
        ("ko"@, "Korean"@)
    } else
    if i == 7 {
        ("fr"@, "French"@)
    } else
    if i == 8 {
        ("ja"@, "Japanese"@)
    } else
    if i == 9 {
        ("pt"@, "Portuguese"@)
    } else
    if i == 10 {
        ("tr"@, "Turkish"@)
    } else
    if i == 11 {
        ("pl"@, "Polish"@)
    } else
    if i == 12 {
        ("ca"@, "Catalan"@)
    } else
    if i == 13 {
        ("nl"@, "Dutch"@)
    } else
    if i == 14 {
        ("ar"@, "Arabic"@)
    } else
    if i == 15 {
        ("sv"@, "Swedish"@)
    } else
    if i == 16 {
        ("it"@, "Italian"@)
    } else
    if i == 17 {
        ("id"@, "Indonesian"@)
    } else
    if i == 18 {
        ("hi"@, "Hindi"@)
    } else
    if i == 19 {
        ("fi"@, "Finnish"@)
    } else
    if i == 20 {
        ("vi"@, "Vietnamese"@)
    } else
    if i == 21 {
        ("he"@, "Hebrew"@)
    } else
    if i == 22 {
        ("uk"@, "Ukrainian"@)
    } else
    if i == 23 {
        ("el"@, "Greek"@)
    } else
    if i == 24 {
        ("ms"@, "Malay"@)
    } else
    if i == 25 {
        ("cs"@, "Czech"@)
    } else
    if i == 26 {
        ("ro"@, "Romanian"@)
    } else
    if i == 27 {
        ("da"@, "Danish"@)
    } else
    if i == 28 {
        ("hu"@, "Hungarian"@)
    } else
    if i == 29 {
        ("ta"@, "Tamil"@)
    } else
    if i == 30 {
        ("no"@, "Norwegian"@)
    } else
    if i == 31 {
        ("th"@, "Thai"@)
    } else
    if i == 32 {
        ("ur"@, "Urdu"@)
    } else
    if i == 33 {
        ("hr"@, "Croatian"@)
    } else
    if i == 34 {
        ("bg"@, "Bulgarian"@)
    } else
    if i == 35 {
        ("lt"@, "Lithuanian"@)
    } else
    if i == 36 {
        ("la"@, "Latin"@)
    } else
    if i == 37 {
        ("mi"@, "Maori"@)
    } else
    if i == 38 {
        ("ml"@, "Malayalam"@)
    } else
    if i == 39 {
        ("cy"@, "Welsh"@)
    } else
    if i == 40 {
        ("sk"@, "Slovak"@)
    } else
    if i == 41 {
        ("te"@, "Telugu"@)
    } else
    if i == 42 {
        ("fa"@, "Persian"@)
    } else
    if i == 43 {
        ("lv"@, "Latvian"@)
    } else
    if i == 44 {
        ("bn"@, "Bengali"@)
    } else
    if i == 45 {
        ("sr"@, "Serbian"@)
    } else
    if i == 46 {
        ("az"@, "Azerbaijani"@)
    } else
    if i == 47 {
        ("sl"@, "Slovenian"@)
    } else
    if i == 48 {
        ("kn"@, "Kannada"@)
    } else
    if i == 49 {
        ("et"@, "Estonian"@)
    } else
    if i == 50 {
        ("mk"@, "Macedonian"@)
    } else
    if i == 51 {
        ("br"@, "Breton"@)
    } else
    if i == 52 {
        ("eu"@, "Basque"@)
    } else
    if i == 53 {
        ("is"@, "Icelandic"@)
    } else
    if i == 54 {
        ("hy"@, "Armenian"@)
    } else
    if i == 55 {
        ("ne"@, "Nepali"@)
    } else
    if i == 56 {
        ("mn"@, "Mongolian"@)
    } else
    if i == 57 {
        ("bs"@, "Bosnian"@)
    } else
    if i == 58 {
        ("kk"@, "Kazakh"@)
    } else
    if i == 59 {
        ("sq"@, "Albanian"@)
    } else
    if i == 60 {
        ("sw"@, "Swahili"@)
    } else
    if i == 61 {
        ("gl"@, "Galician"@)
    } else
    if i == 62 {
        ("mr"@, "Marathi"@)
    } else
    if i == 63 {
        ("pa"@, "Punjabi"@)
    } else
    if i == 64 {
        ("si"@, "Sinhala"@)
    } else
    if i == 65 {
        ("km"@, "Khmer"@)
    } else
    if i == 66 {
        ("sn"@, "Shona"@)
    } else
    if i == 67 {
        ("yo"@, "Yoruba"@)
    } else
    if i == 68 {
        ("so"@, "Somali"@)
    } else
    if i == 69 {
        ("af"@, "Afrikaans"@)
    } else
    if i == 70 {
        ("oc"@, "Occitan"@)
    } else
    if i == 71 {
        ("ka"@, "Georgian"@)
    } else
    if i == 72 {
        ("be"@, "Belarusian"@)
    } else
    if i == 73 {
        ("tg"@, "Tajik"@)
    } else
    if i == 74 {
        ("sd"@, "Sindhi"@)
    } else
    if i == 75 {
        ("gu"@, "Gujarati"@)
    } else
    if i == 76 {
        ("am"@, "Amharic"@)
    } else
    if i == 77 {
        ("yi"@, "Yiddish"@)
    } else
    if i == 78 {
        ("lo"@, "Lao"@)
    } else
    if i == 79 {
        ("uz"@, "Uzbek"@)
    } else
    if i == 80 {
        ("fo"@, "Faroese"@)
    } else
    if i == 81 {
        ("ht"@, "Haitian Creole"@)
    } else
    if i == 82 {
        ("ps"@, "Pashto"@)
    } else
    if i == 83 {
        ("tk"@, "Turkmen"@)
    } else
    if i == 84 {
        ("nn"@, "Nynorsk"@)
    } else
    if i == 85 {
        ("mt"@, "Maltese"@)
    } else
    if i == 86 {
        ("sa"@, "Sanskrit"@)
    } else
    if i == 87 {
        ("lb"@, "Luxembourgish"@)
    } else
    if i == 88 {
        ("my"@, "Myanmar"@)
    } else
    if i == 89 {
        ("bo"@, "Tibetan"@)
    } else
    if i == 90 {
        ("tl"@, "Tagalog"@)
    } else
    if i == 91 {
        ("mg"@, "Malagasy"@)
    } else
    if i == 92 {
        ("as"@, "Assamese"@)
    } else
    if i == 93 {
        ("tt"@, "Tatar"@)
    } else
    if i == 94 {
        ("haw"@, "Hawaiian"@)
    } else
    if i == 95 {
        ("ln"@, "Lingala"@)
    } else
    if i == 96 {
        ("ha"@, "Hausa"@)
    } else
    if i == 97 {
        ("ba"@, "Bashkir"@)
    } else
    if i == 98 {
        ("jw"@, "Javanese"@)
    } else
 {
        ("su"@, "Sundanese"@)
    }
}

/// The languages the engine recognises, in order.
pub open spec fn language_table() -> Seq<(Seq<char>, Seq<char>)> {
    Seq::new(LANGUAGE_COUNT as nat, |i: int| language_entry(i))
}

/// The codes of the supported languages, in order.
pub open spec fn supported_language_codes() -> Seq<Seq<char>> {
    Seq::new(LANGUAGE_COUNT as nat, |i: int| language_entry(i).0)
}

/// The name of the language with `code`, or `Unknown`.
pub open spec fn language_name(code: Seq<char>) -> Seq<char> {
    match assoc_lookup(language_table(), code) {
        Some(name) => name,
        None => "Unknown"@,
    }
}

fn language_at(i: usize) -> (p: (&'static str, &'static str))
    requires
        i < LANGUAGE_COUNT,
    ensures
        (p.0@, p.1@) == language_entry(i as int),
{
    match i {
        0 => ("auto", "Auto Detect"),
        1 => ("en", "English"),
        2 => ("zh", "Chinese"),
        3 => ("de", "German"),
        4 => ("es", "Spanish"),
        5 => ("ru", "Russian"),
        6 => ("ko", "Korean"),
        7 => ("fr", "French"),
        8 => ("ja", "Japanese"),
        9 => ("pt", "Portuguese"),
        10 => ("tr", "Turkish"),
        11 => ("pl", "Polish"),
        12 => ("ca", "Catalan"),
        13 => ("nl", "Dutch"),
        14 => ("ar", "Arabic"),
        15 => ("sv", "Swedish"),
        16 => ("it", "Italian"),
        17 => ("id", "Indonesian"),
        18 => ("hi", "Hindi"),
        19 => ("fi", "Finnish"),
        20 => ("vi", "Vietnamese"),
        21 => ("he", "Hebrew"),
        22 => ("uk", "Ukrainian"),
        23 => ("el", "Greek"),
        24 => ("ms", "Malay"),
        25 => ("cs", "Czech"),
        26 => ("ro", "Romanian"),
        27 => ("da", "Danish"),
        28 => ("hu", "Hungarian"),
        29 => ("ta", "Tamil"),
        30 => ("no", "Norwegian"),
        31 => ("th", "Thai"),
        32 => ("ur", "Urdu"),
        33 => ("hr", "Croatian"),
        34 => ("bg", "Bulgarian"),
        35 => ("lt", "Lithuanian"),
        36 => ("la", "Latin"),
        37 => ("mi", "Maori"),
        38 => ("ml", "Malayalam"),
        39 => ("cy", "Welsh"),
        40 => ("sk", "Slovak"),
        41 => ("te", "Telugu"),
        42 => ("fa", "Persian"),
        43 => ("lv", "Latvian"),
        44 => ("bn", "Bengali"),
        45 => ("sr", "Serbian"),
        46 => ("az", "Azerbaijani"),
        47 => ("sl", "Slovenian"),
        48 => ("kn", "Kannada"),
        49 => ("et", "Estonian"),
        50 => ("mk", "Macedonian"),
        51 => ("br", "Breton"),
        52 => ("eu", "Basque"),
        53 => ("is", "Icelandic"),
        54 => ("hy", "Armenian"),
        55 => ("ne", "Nepali"),
        56 => ("mn", "Mongolian"),
        57 => ("bs", "Bosnian"),
        58 => ("kk", "Kazakh"),
        59 => ("sq", "Albanian"),
        60 => ("sw", "Swahili"),
        61 => ("gl", "Galician"),
        62 => ("mr", "Marathi"),
        63 => ("pa", "Punjabi"),
        64 => ("si", "Sinhala"),
        65 => ("km", "Khmer"),
        66 => ("sn", "Shona"),
        67 => ("yo", "Yoruba"),
        68 => ("so", "Somali"),
        69 => ("af", "Afrikaans"),
        70 => ("oc", "Occitan"),
        71 => ("ka", "Georgian"),
        72 => ("be", "Belarusian"),
        73 => ("tg", "Tajik"),
        74 => ("sd", "Sindhi"),
        75 => ("gu", "Gujarati"),
        76 => ("am", "Amharic"),
        77 => ("yi", "Yiddish"),
        78 => ("lo", "Lao"),
        79 => ("uz", "Uzbek"),
        80 => ("fo", "Faroese"),
        81 => ("ht", "Haitian Creole"),
        82 => ("ps", "Pashto"),
        83 => ("tk", "Turkmen"),
        84 => ("nn", "Nynorsk"),
        85 => ("mt", "Maltese"),
        86 => ("sa", "Sanskrit"),
        87 => ("lb", "Luxembourgish"),
        88 => ("my", "Myanmar"),
        89 => ("bo", "Tibetan"),
        90 => ("tl", "Tagalog"),
        91 => ("mg", "Malagasy"),
        92 => ("as", "Assamese"),
        93 => ("tt", "Tatar"),
        94 => ("haw", "Hawaiian"),
        95 => ("ln", "Lingala"),
        96 => ("ha", "Hausa"),
        97 => ("ba", "Bashkir"),
        98 => ("jw", "Javanese"),
        _ => ("su", "Sundanese"),
    }
}

/// The codes of all languages the engine recognises, `auto` first.
pub fn get_supported_languages() -> (codes: Vec<&'static str>)
    ensures
        codes@.map_values(|s: &'static str| s@) == supported_language_codes(),
{
    let mut codes: Vec<&'static str> = Vec::new();
    let mut i: usize = 0;
    while i < LANGUAGE_COUNT
        invariant
            i <= LANGUAGE_COUNT,
            codes@.len() == i,
            forall|k: int| 0 <= k < i ==> (#[trigger] codes@[k])@ == language_entry(k).0,
        decreases LANGUAGE_COUNT - i,
    {
        let p = language_at(i);
        codes.push(p.0);
        i = i + 1;
    }
    assert(codes@.map_values(|s: &'static str| s@) =~= supported_language_codes());
    codes
}

/// The English name of the language with `code`; `Unknown` for codes the
/// engine does not recognise.
pub fn get_language_name(code: &str) -> (name: &'static str)
    ensures
        name@ == language_name(code@),
{
    let ghost table = language_table();
    let mut i: usize = 0;
    while i < LANGUAGE_COUNT
        invariant
            i <= LANGUAGE_COUNT,
            table == language_table(),
            forall|j: int| 0 <= j < i ==> table[j].0 != code@,
        decreases LANGUAGE_COUNT - i,
    {
        let p = language_at(i);
        if str_eq(p.0, code) {
            proof {
                lemma_assoc_lookup_index(table, code@, i as int);
            }
            return p.1;
        }
        i = i + 1;
    }
    proof {
        lemma_assoc_lookup_absent(table, code@);
        reveal_strlit("Unknown");
    }
    "Unknown"
}

/// Every supported language code has a name: a non-empty one, and not `Unknown`.
pub proof fn law_supported_languages_have_names()
    ensures
        forall|i: int|
            0 <= i < supported_language_codes().len() ==> assoc_lookup(
                language_table(),
                #[trigger] supported_language_codes()[i],
            ) is Some && language_name(supported_language_codes()[i]) != "Unknown"@
                && language_name(supported_language_codes()[i]).len() > 0,
{
    lemma_names_not_unknown();
    assert forall|i: int| 0 <= i < supported_language_codes().len() implies assoc_lookup(
        language_table(),
        #[trigger] supported_language_codes()[i],
    ) is Some && language_name(supported_language_codes()[i]) != "Unknown"@
        && language_name(supported_language_codes()[i]).len() > 0 by {
        lemma_assoc_lookup_present(language_table(), i);
    }
}

proof fn lemma_names_not_unknown()
    ensures
        forall|j: int| 0 <= j < LANGUAGE_COUNT ==> (#[trigger] language_entry(j)).1 != "Unknown"@
            && language_entry(j).1.len() > 0,
{
    reveal_strlit("Unknown");
    assert("Unknown"@[0] == 'U' && "Unknown"@.len() == 7);
    reveal_strlit("Auto Detect");
    assert("Auto Detect"@[0] == 'A');
    reveal_strlit("English");
    assert("English"@[0] == 'E');
    reveal_strlit("Chinese");
    assert("Chinese"@[0] == 'C');
    reveal_strlit("German");
    assert("German"@[0] == 'G');
    reveal_strlit("Spanish");
    assert("Spanish"@[0] == 'S');
    reveal_strlit("Russian");
    assert("Russian"@[0] == 'R');
    reveal_strlit("Korean");
    assert("Korean"@[0] == 'K');
    reveal_strlit("French");
    assert("French"@[0] == 'F');
    reveal_strlit("Japanese");
    assert("Japanese"@[0] == 'J');
    reveal_strlit("Portuguese");
    assert("Portuguese"@[0] == 'P');
    reveal_strlit("Turkish");
    assert("Turkish"@[0] == 'T');
    reveal_strlit("Polish");
    assert("Polish"@[0] == 'P');
    reveal_strlit("Catalan");
    assert("Catalan"@[0] == 'C');
    reveal_strlit("Dutch");
    assert("Dutch"@[0] == 'D');
    reveal_strlit("Arabic");
    assert("Arabic"@[0] == 'A');
    reveal_strlit("Swedish");
    assert("Swedish"@[0] == 'S');
    reveal_strlit("Italian");
    assert("Italian"@[0] == 'I');
    reveal_strlit("Indonesian");
    assert("Indonesian"@[0] == 'I');
    reveal_strlit("Hindi");
    assert("Hindi"@[0] == 'H');
    reveal_strlit("Finnish");
    assert("Finnish"@[0] == 'F');
    reveal_strlit("Vietnamese");
    assert("Vietnamese"@[0] == 'V');
    reveal_strlit("Hebrew");
    assert("Hebrew"@[0] == 'H');
    reveal_strlit("Ukrainian");
    assert("Ukrainian"@[0] == 'U');
    reveal_strlit("Greek");
    assert("Greek"@[0] == 'G');
    reveal_strlit("Malay");
    assert("Malay"@[0] == 'M');
    reveal_strlit("Czech");
    assert("Czech"@[0] == 'C');
    reveal_strlit("Romanian");
    assert("Romanian"@[0] == 'R');
    reveal_strlit("Danish");
    assert("Danish"@[0] == 'D');
    reveal_strlit("Hungarian");
    assert("Hungarian"@[0] == 'H');
    reveal_strlit("Tamil");
    assert("Tamil"@[0] == 'T');
    reveal_strlit("Norwegian");
    assert("Norwegian"@[0] == 'N');
    reveal_strlit("Thai");
    assert("Thai"@[0] == 'T');
    reveal_strlit("Urdu");
    assert("Urdu"@[0] == 'U');
    reveal_strlit("Croatian");
    assert("Croatian"@[0] == 'C');
    reveal_strlit("Bulgarian");
    assert("Bulgarian"@[0] == 'B');
    reveal_strlit("Lithuanian");
    assert("Lithuanian"@[0] == 'L');
    reveal_strlit("Latin");
    assert("Latin"@[0] == 'L');
    reveal_strlit("Maori");
    assert("Maori"@[0] == 'M');
    reveal_strlit("Malayalam");
    assert("Malayalam"@[0] == 'M');
    reveal_strlit("Welsh");
    assert("Welsh"@[0] == 'W');
    reveal_strlit("Slovak");
    assert("Slovak"@[0] == 'S');
    reveal_strlit("Telugu");
    assert("Telugu"@[0] == 'T');
    reveal_strlit("Persian");
    assert("Persian"@[0] == 'P');
    reveal_strlit("Latvian");
    assert("Latvian"@[0] == 'L');
    reveal_strlit("Bengali");
    assert("Bengali"@[0] == 'B');
    reveal_strlit("Serbian");
    assert("Serbian"@[0] == 'S');
    reveal_strlit("Azerbaijani");
    assert("Azerbaijani"@[0] == 'A');
    reveal_strlit("Slovenian");
    assert("Slovenian"@[0] == 'S');
    reveal_strlit("Kannada");
    assert("Kannada"@[0] == 'K');
    reveal_strlit("Estonian");
    assert("Estonian"@[0] == 'E');
    reveal_strlit("Macedonian");
    assert("Macedonian"@[0] == 'M');
    reveal_strlit("Breton");
    assert("Breton"@[0] == 'B');
    reveal_strlit("Basque");
    assert("Basque"@[0] == 'B');
    reveal_strlit("Icelandic");
    assert("Icelandic"@[0] == 'I');
    reveal_strlit("Armenian");
    assert("Armenian"@[0] == 'A');
    reveal_strlit("Nepali");
    assert("Nepali"@[0] == 'N');
    reveal_strlit("Mongolian");
    assert("Mongolian"@[0] == 'M');
    reveal_strlit("Bosnian");
    assert("Bosnian"@[0] == 'B');
    reveal_strlit("Kazakh");
    assert("Kazakh"@[0] == 'K');
    reveal_strlit("Albanian");
    assert("Albanian"@[0] == 'A');
    reveal_strlit("Swahili");
    assert("Swahili"@[0] == 'S');
    reveal_strlit("Galician");
    assert("Galician"@[0] == 'G');
    reveal_strlit("Marathi");
    assert("Marathi"@[0] == 'M');
    reveal_strlit("Punjabi");
    assert("Punjabi"@[0] == 'P');
    reveal_strlit("Sinhala");
    assert("Sinhala"@[0] == 'S');
    reveal_strlit("Khmer");
    assert("Khmer"@[0] == 'K');
    reveal_strlit("Shona");
    assert("Shona"@[0] == 'S');
    reveal_strlit("Yoruba");
    assert("Yoruba"@[0] == 'Y');
    reveal_strlit("Somali");
    assert("Somali"@[0] == 'S');
    reveal_strlit("Afrikaans");
    assert("Afrikaans"@[0] == 'A');
    reveal_strlit("Occitan");
    assert("Occitan"@[0] == 'O');
    reveal_strlit("Georgian");
    assert("Georgian"@[0] == 'G');
    reveal_strlit("Belarusian");
    assert("Belarusian"@[0] == 'B');
    reveal_strlit("Tajik");
    assert("Tajik"@[0] == 'T');
    reveal_strlit("Sindhi");
    assert("Sindhi"@[0] == 'S');
    reveal_strlit("Gujarati");
    assert("Gujarati"@[0] == 'G');
    reveal_strlit("Amharic");
    assert("Amharic"@[0] == 'A');
    reveal_strlit("Yiddish");
    assert("Yiddish"@[0] == 'Y');
    reveal_strlit("Lao");
    assert("Lao"@[0] == 'L');
    reveal_strlit("Uzbek");
    assert("Uzbek"@[0] == 'U');
    reveal_strlit("Faroese");
    assert("Faroese"@[0] == 'F');
    reveal_strlit("Haitian Creole");
    assert("Haitian Creole"@[0] == 'H');
    reveal_strlit("Pashto");
    assert("Pashto"@[0] == 'P');
    reveal_strlit("Turkmen");
    assert("Turkmen"@[0] == 'T');
    reveal_strlit("Nynorsk");
    assert("Nynorsk"@[0] == 'N');
    reveal_strlit("Maltese");
    assert("Maltese"@[0] == 'M');
    reveal_strlit("Sanskrit");
    assert("Sanskrit"@[0] == 'S');
    reveal_strlit("Luxembourgish");
    assert("Luxembourgish"@[0] == 'L');
    reveal_strlit("Myanmar");
    assert("Myanmar"@[0] == 'M');
    reveal_strlit("Tibetan");
    assert("Tibetan"@[0] == 'T');
    reveal_strlit("Tagalog");
    assert("Tagalog"@[0] == 'T');
    reveal_strlit("Malagasy");
    assert("Malagasy"@[0] == 'M');
    reveal_strlit("Assamese");
    assert("Assamese"@[0] == 'A');
    reveal_strlit("Tatar");
    assert("Tatar"@[0] == 'T');
    reveal_strlit("Hawaiian");
    assert("Hawaiian"@[0] == 'H');
    reveal_strlit("Lingala");
    assert("Lingala"@[0] == 'L');
    reveal_strlit("Hausa");
    assert("Hausa"@[0] == 'H');
    reveal_strlit("Bashkir");
    assert("Bashkir"@[0] == 'B');
    reveal_strlit("Javanese");
    assert("Javanese"@[0] == 'J');
    reveal_strlit("Sundanese");
    assert("Sundanese"@[0] == 'S');
}


// =============================================================================
// Engine description and results
// =============================================================================

/// What the loaded engine is configured with.
#[derive(Debug, Clone)]
pub struct ModelInfo {
    pub is_loaded: bool,
    pub language: Option<String>,
    pub threads: i32,
    pub enable_gpu: bool,
}

/// The text, timed segments and language of a finished transcription.
#[derive(Debug, Clone)]
pub struct TranscriptionResult {
    pub text: String,
    pub segments: Vec<TranscriptionSegment>,
    pub language: Option<String>,
    pub processing_time_ms: u64,
}

/// The language the engine is pinned to by a configured language setting:
/// none for an empty or `auto` setting (any case), else the trimmed setting.
pub open spec fn configured_language(setting: Seq<char>) -> Option<Seq<char>> {
    let t = trimmed(setting);
    if t.len() == 0 || eq_ignore_ascii_case(t, "auto"@) {
        None
    } else {
        Some(t)
    }
}

/// Reads the language setting of the configuration: `None` lets the engine
/// detect the language.
pub fn language_from_setting(setting: &str) -> (lang: Option<String>)
    ensures
        lang matches Some(l) ==> configured_language(setting@) == Some(l@),
        lang is None ==> configured_language(setting@) is None,
{
    let t = trim(setting);
    if t.unicode_len() == 0 {
        return None;
    }
    if str_eq_ignore_ascii_case(t, "auto") {
        return None;
    }
    Some(owned(t))
}

/// The concatenation of the trimmed segment texts.
pub open spec fn joined_trimmed(texts: Seq<Seq<char>>) -> Seq<char>
    decreases texts.len(),
{
    if texts.len() == 0 {
        Seq::empty()
    } else {
        joined_trimmed(texts.drop_last()) + trimmed(texts.last())
    }
}

/// The text reported for a transcription with the given segment texts: their
/// trimmed concatenation, or a notice that nothing was recognised.
pub open spec fn transcript_text(texts: Seq<Seq<char>>) -> Seq<char> {
    let full = trimmed(joined_trimmed(texts));
    if full.len() == 0 {
        "(音声を認識できませんでした)"@
    } else {
        full
    }
}

/// A decoder time stamp (hundredths of a second) in milliseconds.
pub open spec fn centis_to_ms(t: i64) -> nat {
    (t * 10) as nat
}

impl TranscriptionResult {
    /// Assembles the result of a decoder run from its segments: the texts are
    /// trimmed and joined; with `include_timestamps` each segment is kept with
    /// its start and end converted from hundredths of a second to milliseconds;
    /// the language is the requested one, else the engine's configured one.
    pub fn from_segments(
        segment_texts: &Vec<String>,
        segment_times: &Vec<(i64, i64)>,
        include_timestamps: bool,
        language_override: Option<&str>,
        default_language: &Option<String>,
    ) -> (r: TranscriptionResult)
        requires
            include_timestamps ==> segment_times@.len() == segment_texts@.len(),
            include_timestamps ==> forall|i: int|
                0 <= i < segment_times@.len() ==> 0 <= (#[trigger] segment_times@[i]).0 && 0
                    <= segment_times@[i].1 && segment_times@[i].0 * 10 <= u64::MAX
                    && segment_times@[i].1 * 10 <= u64::MAX,
        ensures
            r.text@ == transcript_text(segment_texts@.map_values(|s: String| s@)),
            include_timestamps ==> r.segments@.len() == segment_texts@.len(),
            include_timestamps ==> forall|i: int|
                0 <= i < r.segments@.len() ==> (#[trigger] r.segments@[i]).text@ == trimmed(
                    segment_texts@[i]@,
                ) && r.segments@[i].start_time_ms == centis_to_ms(segment_times@[i].0)
                    && r.segments@[i].end_time_ms == centis_to_ms(segment_times@[i].1),
            !include_timestamps ==> r.segments@.len() == 0,
            language_override matches Some(l) ==> r.language matches Some(x) && x@ == l@,
            language_override is None ==> r.language == *default_language,
            r.processing_time_ms == 0,
    {
        let ghost texts = segment_texts@.map_values(|s: String| s@);
        let mut joined = String::new();
        let mut segments: Vec<TranscriptionSegment> = Vec::new();
        let mut i: usize = 0;
        while i < segment_texts.len()
            invariant
                i <= segment_texts@.len(),
                texts == segment_texts@.map_values(|s: String| s@),
                joined@ == joined_trimmed(texts.take(i as int)),
                include_timestamps ==> segment_times@.len() == segment_texts@.len(),
                include_timestamps ==> forall|k: int|
                    0 <= k < segment_times@.len() ==> 0 <= (#[trigger] segment_times@[k]).0 && 0
                        <= segment_times@[k].1 && segment_times@[k].0 * 10 <= u64::MAX
                        && segment_times@[k].1 * 10 <= u64::MAX,
                include_timestamps ==> segments@.len() == i,
                !include_timestamps ==> segments@.len() == 0,
                include_timestamps ==> forall|k: int|
                    0 <= k < i ==> (#[trigger] segments@[k]).text@ == trimmed(segment_texts@[k]@)
                        && segments@[k].start_time_ms == centis_to_ms(segment_times@[k].0)
                        && segments@[k].end_time_ms == centis_to_ms(segment_times@[k].1),
            decreases segment_texts.len() - i,
        {
            let t = trim(segment_texts[i].as_str());
            push_str(&mut joined, t);
            proof {
                assert(texts.take(i + 1).drop_last() =~= texts.take(i as int));
                assert(texts.take(i + 1).last() == segment_texts@[i as int]@);
            }
            if include_timestamps {
                let (t0, t1) = segment_times[i];
                segments.push(
                    TranscriptionSegment {
                        text: owned(t),
                        start_time_ms: (t0 as u64) * 10,
                        end_time_ms: (t1 as u64) * 10,
                    },
                );
            }
            i = i + 1;
        }
        proof {
            assert(texts.take(i as int) =~= texts);
        }
        let full = trim(joined.as_str());
        let text = if full.unicode_len() == 0 {
            owned("(音声を認識できませんでした)")
        } else {
            owned(full)
        };
        let language = match language_override {
            Some(l) => Some(owned(l)),
            None => default_language.clone(),
        };
        TranscriptionResult { text, segments, language, processing_time_ms: 0 }
    }
}

// =============================================================================
// Engine settings
// =============================================================================

/// The view of an optional text.
pub open spec fn opt_text(o: Option<String>) -> Option<Seq<char>> {
    match o {
        Some(s) => Some(s@),
        None => None,
    }
}

/// What an engine takes from the configuration: the language it is pinned to,
/// its decoder thread count and whether it asks for the GPU.
#[derive(Debug, Clone)]
pub struct EngineSettings {
    pub language: Option<String>,
    pub whisper_threads: i32,
    pub enable_gpu: bool,
}

impl EngineSettings {
    /// The settings an engine built from `config` runs with; the thread count
    /// is converted to the decoder's `i32` as `as` converts it.
    pub fn from_config(config: &Config) -> (s: Self)
        ensures
            opt_text(s.language) == configured_language(config.whisper.language@),
            s.whisper_threads == config.performance.whisper_threads as i32,
            s.enable_gpu == config.whisper.enable_gpu,
    {
        let language = language_from_setting(config.whisper.language.as_str());
        EngineSettings {
            language,
            whisper_threads: config.performance.whisper_threads as i32,
            enable_gpu: config.whisper.enable_gpu,
        }
    }

    /// The description of a loaded engine with these settings.
    pub fn model_info(&self) -> (m: ModelInfo)
        ensures
            m.is_loaded,
            m.language == self.language,
            m.threads == self.whisper_threads,
            m.enable_gpu == self.enable_gpu,
    {
        ModelInfo {
            is_loaded: true,
            language: self.language.clone(),
            threads: self.whisper_threads,
            enable_gpu: self.enable_gpu,
        }
    }
}

/// The engine of a pool of `size` engines that the `counter`-th request gets:
/// the engines take turns.
pub fn round_robin_index(counter: usize, size: usize) -> (i: usize)
    requires
        size > 0,
    ensures
        i == counter % size,
        i < size,
{
    counter % size
}

} // verus!
