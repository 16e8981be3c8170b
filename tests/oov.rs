use sudachi_oov::category::{
    bundled_impl, get_all_oov, load_plugin, load_plugins, plugin_class, resolve_instance, OovPlugin,
};
use sudachi_oov::settings::{read_array, read_bool, read_i64, read_string, read_string_list};
use sudachi_oov::config::{Config, Grammar};
use sudachi_oov::error::{SetupErrorKind, SudachiError};
use sudachi_oov::input_text::Utf8InputText;
use sudachi_oov::mecab_oov::MeCabOovPlugin;
use sudachi_oov::node::{Node, WordInfo};
use sudachi_oov::oov::OovProviderPlugin;
use sudachi_oov::simple_oov::SimpleOovPlugin;

fn json(s: &str) -> serde_json::Value {
    serde_json::from_str(s).unwrap()
}

fn text(s: &str, category: u32) -> Utf8InputText {
    let bytes = s.as_bytes().to_vec();
    let categories = vec![category; bytes.len()];
    Utf8InputText::new(bytes, categories).unwrap()
}

fn grammar() -> Grammar {
    Grammar {
        pos_list: vec![
            vec!["名詞".to_string(), "普通名詞".to_string()],
            vec!["補助記号".to_string(), "一般".to_string()],
        ],
    }
}

fn config() -> Config {
    Config { oov_provider_plugins: vec![] }
}

fn simple(left_id: u16) -> SimpleOovPlugin {
    SimpleOovPlugin { left_id, right_id: 7, cost: 100, oov_pos_id: 1 }
}

fn no_loader(_v: &serde_json::Value) -> Option<SimpleOovPlugin> {
    None
}

#[test]
fn bundled_names_are_found() {
    let s = bundled_impl::<SimpleOovPlugin>("SimpleOovPlugin");
    assert!(matches!(s, Some(OovPlugin::Simple(_))));
    let m = bundled_impl::<SimpleOovPlugin>("MeCabOovPlugin");
    assert!(matches!(m, Some(OovPlugin::MeCab(_))));
    assert!(bundled_impl::<SimpleOovPlugin>("NotAPlugin").is_none());
    assert!(bundled_impl::<SimpleOovPlugin>("").is_none());
}

#[test]
fn get_oov_fills_range_from_offset() {
    // ten ASCII bytes, then a character of three bytes
    let t = text("abcdefghij日本", 1);
    let p = simple(5);
    let provided = p.provide_oov(&t, 10, false).unwrap();
    assert_eq!(provided.len(), 1);
    assert_eq!(provided[0].word_info.unwrap().head_word_length, 3);
    let nodes = p.get_oov(&t, 10, false).unwrap();
    assert_eq!(nodes.len(), 1);
    assert_eq!((nodes[0].begin, nodes[0].end), (10, 13));
    assert_eq!(nodes[0].word_info, Some(WordInfo { head_word_length: 3, pos_id: 1 }));
    assert_eq!((nodes[0].left_id, nodes[0].right_id, nodes[0].cost), (5, 7, 100));
}

#[test]
fn get_oov_is_repeatable() {
    let t = text("東京都", 1);
    let p = simple(5);
    let a = p.get_oov(&t, 3, false).unwrap();
    let b = p.get_oov(&t, 3, false).unwrap();
    assert_eq!(a, b);
    assert_eq!((a[0].begin, a[0].end), (3, 6));
}

#[test]
fn simple_plugin_yields_to_other_words() {
    let t = text("abc", 1);
    let p = simple(5);
    assert_eq!(p.get_oov(&t, 1, true).unwrap(), Vec::<Node>::new());
    let nodes = p.get_oov(&t, 2, false).unwrap();
    assert_eq!((nodes[0].begin, nodes[0].end), (2, 3));
}

#[test]
fn offset_past_the_text_is_an_error() {
    let t = text("abc", 1);
    let p = simple(5);
    assert_eq!(p.get_oov(&t, 3, false), Err(SudachiError::OffsetOutOfBounds));
    let m = MeCabOovPlugin::default();
    assert_eq!(m.get_oov(&t, 9, true), Err(SudachiError::OffsetOutOfBounds));
}

#[test]
fn character_cut_at_end_of_text() {
    // a leading byte of a three-byte character with only two bytes left
    let t = Utf8InputText::new(vec![b'a', 0xe6, 0x97], vec![1, 1, 1]).unwrap();
    assert_eq!(t.char_len(1), 2);
    assert_eq!(t.char_len(0), 1);
    assert!(Utf8InputText::new(vec![1, 2], vec![1]).is_none());
}

#[test]
fn plugins_keep_configured_order() {
    let t = text("xyz", 1);
    let plugins = vec![simple(1), simple(2)];
    let nodes = get_all_oov(&plugins, &t, 0, false).unwrap();
    assert_eq!(nodes.len(), 2);
    assert_eq!(nodes[0].left_id, 1);
    assert_eq!(nodes[1].left_id, 2);
    assert_eq!((nodes[1].begin, nodes[1].end), (0, 1));
}

#[test]
fn no_plugins_give_no_nodes() {
    let plugins = load_plugins(&config(), &grammar(), &no_loader).unwrap();
    assert!(plugins.is_empty());
    let t = text("abc", 1);
    assert_eq!(get_all_oov(&plugins, &t, 0, false).unwrap(), Vec::<Node>::new());
    assert_eq!(get_all_oov(&plugins, &t, 2, true).unwrap(), Vec::<Node>::new());
}

#[test]
fn unknown_plugin_fails_to_load() {
    let cfg = Config { oov_provider_plugins: vec![json(r#"{"class": "NotAPlugin"}"#)] };
    let r = load_plugins(&cfg, &grammar(), &no_loader);
    assert!(matches!(r, Err(SudachiError::PluginLoad)));
    let entry = json(r#"{"class": "NotAPlugin", "path": "/nonexistent/libplugin.so"}"#);
    let r = resolve_instance("NotAPlugin", &entry, &no_loader);
    assert!(matches!(r, Err(SudachiError::PluginLoad)));
}

#[test]
fn loaded_plugin_is_used_for_unbundled_names() {
    let entry = json(r#"{"class": "Custom"}"#);
    let loader = |_v: &serde_json::Value| Some(simple(9));
    let r = resolve_instance("Custom", &entry, &loader).unwrap();
    match r {
        OovPlugin::Loaded(p) => assert_eq!(p.left_id, 9),
        _ => panic!("expected a loaded plugin"),
    }
}

#[test]
fn entry_without_class_is_refused() {
    let cfg = Config { oov_provider_plugins: vec![json(r#"{"leftId": 1}"#)] };
    let r = load_plugins(&cfg, &grammar(), &no_loader);
    assert!(matches!(r, Err(SudachiError::InvalidPluginName)));
}

#[test]
fn simple_plugin_resolves_from_configuration() {
    let cfg = Config {
        oov_provider_plugins: vec![json(
            r#"{"class": "SimpleOovPlugin", "oovPOS": ["補助記号", "一般"], "leftId": 5968, "rightId": 5969, "cost": 3857}"#,
        )],
    };
    let plugins = load_plugins(&cfg, &grammar(), &no_loader).unwrap();
    assert_eq!(plugins.len(), 1);
    match &plugins[0] {
        OovPlugin::Simple(p) => {
            assert_eq!(*p, SimpleOovPlugin { left_id: 5968, right_id: 5969, cost: 3857, oov_pos_id: 1 })
        }
        _ => panic!("expected the simple plugin"),
    }
    let t = text("ab", 1);
    let nodes = get_all_oov(&plugins, &t, 1, false).unwrap();
    assert_eq!((nodes[0].begin, nodes[0].end, nodes[0].cost), (1, 2, 3857));
}

#[test]
fn setup_errors() {
    let g = grammar();
    let mut p = SimpleOovPlugin::default();
    let missing = json(r#"{"oovPOS": ["名詞", "普通名詞"], "leftId": 1, "rightId": 2}"#);
    assert_eq!(p.set_up(&missing, &config(), &g), Err(SudachiError::Setup(SetupErrorKind::MissingField)));
    let wrong_type = json(r#"{"oovPOS": ["名詞", "普通名詞"], "leftId": "a", "rightId": 2, "cost": 3}"#);
    assert_eq!(p.set_up(&wrong_type, &config(), &g), Err(SudachiError::Setup(SetupErrorKind::InvalidField)));
    let out_of_range = json(r#"{"oovPOS": ["名詞", "普通名詞"], "leftId": 1, "rightId": 2, "cost": 40000}"#);
    assert_eq!(p.set_up(&out_of_range, &config(), &g), Err(SudachiError::Setup(SetupErrorKind::InvalidField)));
    let unknown = json(r#"{"oovPOS": ["動詞"], "leftId": 1, "rightId": 2, "cost": 3}"#);
    assert_eq!(p.set_up(&unknown, &config(), &g), Err(SudachiError::Setup(SetupErrorKind::UnknownPartOfSpeech)));
    let good = json(r#"{"oovPOS": ["名詞", "普通名詞"], "leftId": 1, "rightId": 2, "cost": -3}"#);
    assert_eq!(p.set_up(&good, &config(), &g), Ok(()));
    assert_eq!(p, SimpleOovPlugin { left_id: 1, right_id: 2, cost: -3, oov_pos_id: 0 });
}

#[test]
fn setup_failure_stops_resolution() {
    let cfg = Config {
        oov_provider_plugins: vec![json(r#"{"class": "SimpleOovPlugin", "oovPOS": ["動詞"], "leftId": 1, "rightId": 2, "cost": 3}"#)],
    };
    let r = load_plugins(&cfg, &grammar(), &no_loader);
    assert!(matches!(r, Err(SudachiError::Setup(SetupErrorKind::UnknownPartOfSpeech))));
}

#[test]
fn configure_checks_ranges() {
    let g = grammar();
    let pos = vec!["名詞".to_string(), "普通名詞".to_string()];
    assert_eq!(
        SimpleOovPlugin::configure(&pos, 65535, 0, -32768, &g),
        Ok(SimpleOovPlugin { left_id: 65535, right_id: 0, cost: -32768, oov_pos_id: 0 })
    );
    assert_eq!(
        SimpleOovPlugin::configure(&pos, 65536, 0, 0, &g),
        Err(SudachiError::Setup(SetupErrorKind::InvalidField))
    );
    assert_eq!(
        SimpleOovPlugin::configure(&pos, -1, 0, 0, &g),
        Err(SudachiError::Setup(SetupErrorKind::InvalidField))
    );
    assert_eq!(g.get_part_of_speech_id(&vec!["補助記号".to_string(), "一般".to_string()]), Some(1));
    assert_eq!(g.get_part_of_speech_id(&vec!["補助記号".to_string()]), None);
}

fn mecab() -> MeCabOovPlugin {
    let settings = json(
        r#"{"categories": [
            {"type": 1, "invoke": false, "group": true, "length": 2,
             "oovs": [{"leftId": 1, "rightId": 1, "cost": 10, "oovPOS": ["名詞", "普通名詞"]}]},
            {"type": 2, "invoke": true, "group": false, "length": 1,
             "oovs": [{"leftId": 2, "rightId": 2, "cost": 20, "oovPOS": ["補助記号", "一般"]}]}
        ]}"#,
    );
    let mut m = MeCabOovPlugin::default();
    assert_eq!(m.set_up(&settings, &config(), &grammar()), Ok(()));
    assert_eq!(m.categories.len(), 2);
    m
}

fn spans(nodes: &[Node]) -> Vec<(usize, usize, u16)> {
    nodes.iter().map(|n| (n.begin, n.end, n.left_id)).collect()
}

#[test]
fn mecab_groups_a_run_and_adds_short_words() {
    let m = mecab();
    // "abcd" in category 1, then "!" in category 2
    let t = Utf8InputText::new(b"abcd!".to_vec(), vec![1, 1, 1, 1, 2]).unwrap();
    let nodes = m.get_oov(&t, 0, false).unwrap();
    assert_eq!(spans(&nodes), vec![(0, 4, 1), (0, 1, 1), (0, 2, 1)]);
    // the group node and its lengths are not invoked when a word exists
    assert_eq!(m.get_oov(&t, 0, true).unwrap(), Vec::<Node>::new());
    // the second category is always invoked
    assert_eq!(spans(&m.get_oov(&t, 4, true).unwrap()), vec![(4, 5, 2)]);
}

#[test]
fn mecab_short_words_stay_below_the_group() {
    let m = mecab();
    let t = Utf8InputText::new(b"ab".to_vec(), vec![1, 1]).unwrap();
    // the group covers two bytes, so only the one-byte word is added
    assert_eq!(spans(&m.get_oov(&t, 0, false).unwrap()), vec![(0, 2, 1), (0, 1, 1)]);
}

#[test]
fn mecab_byte_of_both_categories() {
    let m = mecab();
    let t = Utf8InputText::new(b"x".to_vec(), vec![3]).unwrap();
    assert_eq!(spans(&m.get_oov(&t, 0, false).unwrap()), vec![(0, 1, 1), (0, 1, 2)]);
    let none = Utf8InputText::new(b"x".to_vec(), vec![4]).unwrap();
    assert_eq!(m.get_oov(&none, 0, false).unwrap(), Vec::<Node>::new());
}

#[test]
fn mecab_setup_errors() {
    let mut m = MeCabOovPlugin::default();
    assert_eq!(
        m.set_up(&json("{}"), &config(), &grammar()),
        Err(SudachiError::Setup(SetupErrorKind::MissingField))
    );
    let bad = json(r#"{"categories": [{"type": 1, "invoke": 1, "group": true, "length": 2, "oovs": []}]}"#);
    assert_eq!(m.set_up(&bad, &config(), &grammar()), Err(SudachiError::Setup(SetupErrorKind::InvalidField)));
}

#[test]
fn settings_are_read_by_key() {
    let v = json(r#"{"n": -5, "b": true, "s": "text", "a": [1, 2], "l": ["x", "y"], "m": ["x", 1]}"#);
    assert_eq!(read_i64(&v, "n"), Ok(-5));
    assert_eq!(read_bool(&v, "b"), Ok(true));
    assert_eq!(read_string(&v, "s"), Ok("text".to_string()));
    assert_eq!(read_array(&v, "a").unwrap().len(), 2);
    assert_eq!(read_string_list(&v, "l"), Ok(vec!["x".to_string(), "y".to_string()]));
    assert_eq!(read_string_list(&v, "m"), Err(SudachiError::Setup(SetupErrorKind::InvalidField)));
    assert_eq!(read_i64(&v, "s"), Err(SudachiError::Setup(SetupErrorKind::InvalidField)));
    assert_eq!(read_bool(&v, "n"), Err(SudachiError::Setup(SetupErrorKind::InvalidField)));
    assert_eq!(read_string(&v, "zz"), Err(SudachiError::Setup(SetupErrorKind::MissingField)));
    assert_eq!(read_array(&v, "b"), Err(SudachiError::Setup(SetupErrorKind::InvalidField)));
}

#[test]
fn class_name_of_entry() {
    assert_eq!(plugin_class(&json(r#"{"class": "MeCabOovPlugin"}"#)), Ok("MeCabOovPlugin".to_string()));
    assert_eq!(plugin_class(&json(r#"{"class": 3}"#)), Err(SudachiError::InvalidPluginName));
    let r = load_plugin(&json(r#"{"class": 3}"#), &config(), &grammar(), &no_loader);
    assert!(matches!(r, Err(SudachiError::InvalidPluginName)));
}

#[test]
fn each_plugin_comes_from_its_entry() {
    let cfg = Config {
        oov_provider_plugins: vec![
            json(r#"{"class": "MeCabOovPlugin", "categories": []}"#),
            json(r#"{"class": "SimpleOovPlugin", "oovPOS": ["名詞", "普通名詞"], "leftId": 4, "rightId": 5, "cost": 6}"#),
            json(r#"{"class": "Custom", "oovPOS": ["名詞", "普通名詞"], "leftId": 7, "rightId": 8, "cost": 9}"#),
        ],
    };
    let loader = |_v: &serde_json::Value| Some(SimpleOovPlugin::default());
    let plugins = load_plugins(&cfg, &grammar(), &loader).unwrap();
    assert_eq!(plugins.len(), 3);
    assert!(matches!(&plugins[0], OovPlugin::MeCab(m) if m.categories.is_empty()));
    assert!(matches!(&plugins[1], OovPlugin::Simple(p) if p.left_id == 4 && p.cost == 6));
    assert!(matches!(&plugins[2], OovPlugin::Loaded(p) if p.left_id == 7 && p.cost == 9));
}

#[test]
fn first_failing_entry_decides() {
    let cfg = Config {
        oov_provider_plugins: vec![
            json(r#"{"class": "NotAPlugin"}"#),
            json(r#"{"class": "SimpleOovPlugin"}"#),
        ],
    };
    let r = load_plugins(&cfg, &grammar(), &no_loader);
    assert!(matches!(r, Err(SudachiError::PluginLoad)));
}
