use vstd::prelude::*;

use crate::config::{Config, Grammar};
use crate::error::{SudachiError, SudachiResult};
use crate::input_text::Utf8InputText;
use crate::mecab_oov::MeCabOovPlugin;
use crate::node::{anchor_all, Node};
use crate::oov::OovProviderPlugin;
use crate::settings::{read_string, string_setting};
use crate::simple_oov::SimpleOovPlugin;

verus! {

/// A resolved OOV plugin: one of the bundled implementations, or one that
/// was loaded from an external module.
pub enum OovPlugin<E> {
    Simple(SimpleOovPlugin),
    MeCab(MeCabOovPlugin),
    Loaded(E),
}

impl<E: OovProviderPlugin> OovProviderPlugin for OovPlugin<E> {
    open spec fn provided(&self, input_text: Utf8InputText, offset: usize, has_other_words: bool)
        -> SudachiResult<Seq<Node>> {
        match self {
            OovPlugin::Simple(p) => p.provided(input_text, offset, has_other_words),
            OovPlugin::MeCab(p) => p.provided(input_text, offset, has_other_words),
            OovPlugin::Loaded(p) => p.provided(input_text, offset, has_other_words),
        }
    }

    open spec fn set_up_spec(
        &self,
        settings: serde_json::Value,
        config: Config,
        grammar: Grammar,
        after: Self,
        r: SudachiResult<()>,
    ) -> bool {
        match (*self, after) {
            (OovPlugin::Simple(p), OovPlugin::Simple(q)) => p.set_up_spec(settings, config, grammar, q, r),
            (OovPlugin::MeCab(p), OovPlugin::MeCab(q)) => p.set_up_spec(settings, config, grammar, q, r),
            (OovPlugin::Loaded(p), OovPlugin::Loaded(q)) => p.set_up_spec(settings, config, grammar, q, r),
            _ => false,
        }
    }

    fn set_up(&mut self, settings: &serde_json::Value, config: &Config, grammar: &Grammar) -> (r:
        SudachiResult<()>) {
        match self {
            OovPlugin::Simple(p) => p.set_up(settings, config, grammar),
            OovPlugin::MeCab(p) => p.set_up(settings, config, grammar),
            OovPlugin::Loaded(p) => p.set_up(settings, config, grammar),
        }
    }

    fn provide_oov(&self, input_text: &Utf8InputText, offset: usize, has_other_words: bool) -> (r:
        SudachiResult<Vec<Node>>) {
        match self {
            OovPlugin::Simple(p) => p.provide_oov(input_text, offset, has_other_words),
            OovPlugin::MeCab(p) => p.provide_oov(input_text, offset, has_other_words),
            OovPlugin::Loaded(p) => p.provide_oov(input_text, offset, has_other_words),
        }
    }
}

/// The names of the bundled plugins.
pub open spec fn is_bundled_name(name: Seq<char>) -> bool {
    name == "SimpleOovPlugin"@ || name == "MeCabOovPlugin"@
}

/// `p` is the freshly made bundled plugin called `name`.
pub open spec fn is_fresh_bundled<E>(p: OovPlugin<E>, name: Seq<char>) -> bool {
    &&& name == "SimpleOovPlugin"@ ==> p == OovPlugin::<E>::Simple(
        SimpleOovPlugin { left_id: 0, right_id: 0, cost: 0, oov_pos_id: 0 },
    )
    &&& name == "MeCabOovPlugin"@ ==> p is MeCab && p->MeCab_0.categories@.len() == 0
}

/// The plugin settings of the configuration, in activation order.
pub fn configurations(cfg: &Config) -> (r: &Vec<serde_json::Value>)
    ensures
        r == &cfg.oov_provider_plugins,
{
    &cfg.oov_provider_plugins
}

/// A new default instance of the bundled plugin called `name`, or `None`
/// when no plugin of that name is bundled.
pub fn bundled_impl<E>(name: &str) -> (r: Option<OovPlugin<E>>)
    ensures
        r is Some <==> is_bundled_name(name@),
        r is Some ==> is_fresh_bundled(r->Some_0, name@),
{
    assert("SimpleOovPlugin"@ != "MeCabOovPlugin"@) by {
        reveal_strlit("SimpleOovPlugin");
        reveal_strlit("MeCabOovPlugin");
        assert("SimpleOovPlugin"@[0] != "MeCabOovPlugin"@[0]);
    }
    let n = name.to_owned();
    if n == "SimpleOovPlugin".to_owned() {
        Some(OovPlugin::Simple(SimpleOovPlugin::default()))
    } else if n == "MeCabOovPlugin".to_owned() {
        Some(OovPlugin::MeCab(MeCabOovPlugin::default()))
    } else {
        None
    }
}

/// What resolving an entry gives for the loader's result `loaded`.
pub open spec fn loaded_result<E>(loaded: Option<E>) -> SudachiResult<OovPlugin<E>> {
    match loaded {
        Some(e) => Ok(OovPlugin::Loaded(e)),
        None => Err(SudachiError::PluginLoad),
    }
}

/// The instance for a plugin called `name`: the bundled one when there is
/// one, else what `load` makes from the configuration entry. A failed load
/// is a `PluginLoad` error, and `load` is called only for names that are not
/// bundled.
pub fn resolve_instance<E, F: Fn(&serde_json::Value) -> Option<E>>(
    name: &str,
    entry: &serde_json::Value,
    load: &F,
) -> (r: SudachiResult<OovPlugin<E>>)
    requires
        forall|v: &serde_json::Value| load.requires((v,)),
    ensures
        is_bundled_name(name@) ==> r is Ok && is_fresh_bundled(r->Ok_0, name@),
        !is_bundled_name(name@) ==> exists|l: Option<E>|
            load.ensures((entry,), l) && r == loaded_result(l),
        !is_bundled_name(name@) && (forall|l: Option<E>| load.ensures((entry,), l) ==> l is None)
            ==> r == Err::<OovPlugin<E>, SudachiError>(SudachiError::PluginLoad),
{
    match bundled_impl(name) {
        Some(p) => Ok(p),
        None => {
            let loaded = load(entry);
            let r = match loaded {
                Some(e) => Ok(OovPlugin::Loaded(e)),
                None => Err(SudachiError::PluginLoad),
            };
            assert(load.ensures((entry,), loaded) && r == loaded_result(loaded));
            r
        },
    }
}

/// Runs the one-time setup of `ptr`, with the outcome of the instance's own
/// `set_up`; the kind of plugin stays the same.
pub fn do_setup<E: OovProviderPlugin>(
    ptr: &mut OovPlugin<E>,
    settings: &serde_json::Value,
    config: &Config,
    grammar: &Grammar,
) -> (r: SudachiResult<()>)
    ensures
        old(ptr).set_up_spec(*settings, *config, *grammar, *final(ptr), r),
        (*final(ptr)) is Simple <==> (*old(ptr)) is Simple,
        (*final(ptr)) is MeCab <==> (*old(ptr)) is MeCab,
        (*final(ptr)) is Loaded <==> (*old(ptr)) is Loaded,
{
    match ptr {
        OovPlugin::Simple(p) => p.set_up(settings, config, grammar),
        OovPlugin::MeCab(p) => p.set_up(settings, config, grammar),
        OovPlugin::Loaded(p) => p.set_up(settings, config, grammar),
    }
}

/// The class name of a configuration entry: its string member `class`.
pub open spec fn class_of(entry: serde_json::Value) -> Option<Seq<char>> {
    match string_setting(entry, "class"@) {
        Ok(c) => Some(c),
        Err(_) => None,
    }
}

/// The class name of a configuration entry; an entry without a string
/// member `class` has no usable name.
pub fn plugin_class(entry: &serde_json::Value) -> (r: SudachiResult<String>)
    ensures
        match class_of(*entry) {
            Some(c) => r is Ok && r->Ok_0@ == c,
            None => r == Err::<String, SudachiError>(SudachiError::InvalidPluginName),
        },
{
    match read_string(entry, "class") {
        Ok(name) => Ok(name),
        Err(_) => Err(SudachiError::InvalidPluginName),
    }
}

/// Setting `p` up with the entry may give `r`: the set-up instance, or the
/// error of its `set_up`.
pub open spec fn set_up_gives<E: OovProviderPlugin>(
    p: OovPlugin<E>,
    entry: serde_json::Value,
    config: Config,
    grammar: Grammar,
    r: SudachiResult<OovPlugin<E>>,
) -> bool {
    exists|after: OovPlugin<E>, res: SudachiResult<()>|
        #[trigger] p.set_up_spec(entry, config, grammar, after, res) && r == match res {
            Ok(_) => Ok::<OovPlugin<E>, SudachiError>(after),
            Err(e) => Err(e),
        }
}

/// Resolving the entry may give `r`. Without a class name: the name error.
/// A bundled class: a fresh bundled instance, set up with the entry. Any
/// other class: what `load` makes from the entry, set up with it, where a
/// failed load is a `PluginLoad` error.
pub open spec fn loads<E: OovProviderPlugin, F: Fn(&serde_json::Value) -> Option<E>>(
    load: F,
    entry: &serde_json::Value,
    config: Config,
    grammar: Grammar,
    r: SudachiResult<OovPlugin<E>>,
) -> bool {
    match class_of(*entry) {
        None => r == Err::<OovPlugin<E>, SudachiError>(SudachiError::InvalidPluginName),
        Some(c) => if is_bundled_name(c) {
            &&& exists|p: OovPlugin<E>|
                is_fresh_bundled(p, c) && #[trigger] set_up_gives(p, *entry, config, grammar, r)
            &&& r is Ok ==> !(r->Ok_0 is Loaded)
        } else {
            &&& exists|l: Option<E>|
                #[trigger] load.ensures((entry,), l) && match l {
                    None => r == Err::<OovPlugin<E>, SudachiError>(SudachiError::PluginLoad),
                    Some(e) => set_up_gives(OovPlugin::Loaded(e), *entry, config, grammar, r),
                }
            &&& (forall|l: Option<E>| #[trigger] load.ensures((entry,), l) ==> l is None) ==> r
                == Err::<OovPlugin<E>, SudachiError>(SudachiError::PluginLoad)
            &&& r is Ok ==> r->Ok_0 is Loaded
        },
    }
}

/// The entry resolves to some set-up instance.
pub open spec fn resolves<E: OovProviderPlugin, F: Fn(&serde_json::Value) -> Option<E>>(
    load: F,
    entry: &serde_json::Value,
    config: Config,
    grammar: Grammar,
) -> bool {
    exists|p: OovPlugin<E>| #[trigger] loads(load, entry, config, grammar, Ok::<OovPlugin<E>, SudachiError>(p))
}

/// Resolves one configuration entry to a set-up plugin instance.
pub fn load_plugin<E: OovProviderPlugin, F: Fn(&serde_json::Value) -> Option<E>>(
    entry: &serde_json::Value,
    config: &Config,
    grammar: &Grammar,
    load: &F,
) -> (r: SudachiResult<OovPlugin<E>>)
    requires
        forall|v: &serde_json::Value| load.requires((v,)),
    ensures
        loads(*load, entry, *config, *grammar, r),
{
    let name = match plugin_class(entry) {
        Ok(n) => n,
        Err(e) => return Err(e),
    };
    let mut plugin = match resolve_instance(name.as_str(), entry, load) {
        Ok(p) => p,
        Err(e) => return Err(e),
    };
    let ghost p0 = plugin;
    let res = do_setup(&mut plugin, entry, config, grammar);
    let ghost after = plugin;
    let r = match res {
        Ok(()) => Ok(plugin),
        Err(e) => Err(e),
    };
    assert(p0.set_up_spec(*entry, *config, *grammar, after, res));
    assert(set_up_gives(p0, *entry, *config, *grammar, r));
    r
}

/// Resolves every configured OOV plugin, in configuration order: element `i`
/// is what entry `i` resolves to. The first entry that cannot be resolved or
/// set up fails the whole resolution with its error.
pub fn load_plugins<E: OovProviderPlugin, F: Fn(&serde_json::Value) -> Option<E>>(
    config: &Config,
    grammar: &Grammar,
    load: &F,
) -> (r: SudachiResult<Vec<OovPlugin<E>>>)
    requires
        forall|v: &serde_json::Value| load.requires((v,)),
    ensures
        r is Ok ==> r->Ok_0@.len() == config.oov_provider_plugins@.len() && forall|i: int|
            0 <= i < r->Ok_0@.len() ==> loads(
                *load,
                &config.oov_provider_plugins@[i],
                *config,
                *grammar,
                Ok::<OovPlugin<E>, SudachiError>(#[trigger] r->Ok_0@[i]),
            ),
        r is Err ==> exists|k: int|
            0 <= k < config.oov_provider_plugins@.len() && #[trigger] loads(
                *load,
                &config.oov_provider_plugins@[k],
                *config,
                *grammar,
                Err::<OovPlugin<E>, SudachiError>(r->Err_0),
            ) && forall|i: int|
                0 <= i < k ==> #[trigger] resolves(
                    *load,
                    &config.oov_provider_plugins@[i],
                    *config,
                    *grammar,
                ),
        config.oov_provider_plugins@.len() == 0 ==> r is Ok,
{
    let entries = configurations(config);
    let mut plugins: Vec<OovPlugin<E>> = Vec::new();
    let mut i: usize = 0;
    while i < entries.len()
        invariant
            entries == &config.oov_provider_plugins,
            plugins@.len() == i,
            i <= entries@.len(),
            forall|v: &serde_json::Value| load.requires((v,)),
            forall|j: int|
                0 <= j < i ==> loads(
                    *load,
                    &config.oov_provider_plugins@[j],
                    *config,
                    *grammar,
                    Ok::<OovPlugin<E>, SudachiError>(#[trigger] plugins@[j]),
                ),
        decreases entries@.len() - i,
    {
        match load_plugin(&entries[i], config, grammar, load) {
            Ok(plugin) => plugins.push(plugin),
            Err(e) => {
                assert forall|j: int| 0 <= j < i implies #[trigger] resolves(
                    *load,
                    &config.oov_provider_plugins@[j],
                    *config,
                    *grammar,
                ) by {
                    let p = plugins@[j];
                    assert(loads(
                        *load,
                        &config.oov_provider_plugins@[j],
                        *config,
                        *grammar,
                        Ok::<OovPlugin<E>, SudachiError>(p),
                    ));
                }
                assert(loads(
                    *load,
                    &config.oov_provider_plugins@[i as int],
                    *config,
                    *grammar,
                    Err::<OovPlugin<E>, SudachiError>(e),
                ));
                let r: SudachiResult<Vec<OovPlugin<E>>> = Err(e);
                assert(r is Err ==> 0 <= i < config.oov_provider_plugins@.len() && loads(
                    *load,
                    &config.oov_provider_plugins@[i as int],
                    *config,
                    *grammar,
                    Err::<OovPlugin<E>, SudachiError>(r->Err_0),
                ) && forall|j: int|
                    0 <= j < i ==> #[trigger] resolves(
                        *load,
                        &config.oov_provider_plugins@[j],
                        *config,
                        *grammar,
                    ));
                return r;
            },
        }
        i = i + 1;
    }
    Ok(plugins)
}

/// What `get_oov` of `p` returns.
pub open spec fn oov_of<P: OovProviderPlugin>(
    p: P,
    input_text: Utf8InputText,
    offset: usize,
    has_other_words: bool,
) -> SudachiResult<Seq<Node>> {
    match p.provided(input_text, offset, has_other_words) {
        Ok(nodes) => Ok(anchor_all(nodes, offset)),
        Err(e) => Err(e),
    }
}

/// The nodes of the plugins from index `k` on, concatenated in order; the
/// first failure, if any.
pub open spec fn oov_of_all<P: OovProviderPlugin>(
    plugins: Seq<P>,
    input_text: Utf8InputText,
    offset: usize,
    has_other_words: bool,
    k: int,
) -> SudachiResult<Seq<Node>>
    decreases plugins.len() - k,
{
    if k < 0 || k >= plugins.len() {
        Ok(Seq::empty())
    } else {
        match oov_of(plugins[k], input_text, offset, has_other_words) {
            Err(e) => Err(e),
            Ok(a) => match oov_of_all(plugins, input_text, offset, has_other_words, k + 1) {
                Ok(b) => Ok(a + b),
                Err(e) => Err(e),
            },
        }
    }
}

/// Asks every plugin, in order, for its nodes at `offset` and concatenates
/// them; stops at the first plugin that fails.
pub fn get_all_oov<P: OovProviderPlugin>(
    plugins: &Vec<P>,
    input_text: &Utf8InputText,
    offset: usize,
    has_other_words: bool,
) -> (r: SudachiResult<Vec<Node>>)
    requires
        input_text.wf(),
    ensures
        match oov_of_all(plugins@, *input_text, offset, has_other_words, 0) {
            Ok(nodes) => r is Ok && r->Ok_0@ == nodes,
            Err(e) => r == Err::<Vec<Node>, SudachiError>(e),
        },
{
    let mut out: Vec<Node> = Vec::new();
    let mut k: usize = 0;
    while k < plugins.len()
        invariant
            input_text.wf(),
            k <= plugins@.len(),
            match oov_of_all(plugins@, *input_text, offset, has_other_words, k as int) {
                Ok(b) => oov_of_all(plugins@, *input_text, offset, has_other_words, 0) == Ok::<
                    Seq<Node>,
                    SudachiError,
                >(out@ + b),
                Err(e) => oov_of_all(plugins@, *input_text, offset, has_other_words, 0) == Err::<
                    Seq<Node>,
                    SudachiError,
                >(e),
            },
        decreases plugins@.len() - k,
    {
        let ghost before = out@;
        match plugins[k].get_oov(input_text, offset, has_other_words) {
            Ok(mut nodes) => {
                out.append(&mut nodes);
                proof {
                    match oov_of_all(plugins@, *input_text, offset, has_other_words, k + 1) {
                        Ok(b) => {
                            assert(out@ + b =~= before + (oov_of(plugins@[k as int], *input_text, offset, has_other_words)->Ok_0 + b));
                        },
                        Err(e) => {},
                    }
                }
            },
            Err(e) => {
                return Err(e);
            },
        }
        k = k + 1;
    }
    assert(out@ =~= out@ + Seq::<Node>::empty());
    Ok(out)
}

/// With no plugin configured, no node is produced, at any offset of any text.
pub proof fn lemma_no_plugins_no_nodes<P: OovProviderPlugin>(
    input_text: Utf8InputText,
    offset: usize,
    has_other_words: bool,
)
    ensures
        oov_of_all(Seq::<P>::empty(), input_text, offset, has_other_words, 0) == Ok::<
            Seq<Node>,
            SudachiError,
        >(Seq::empty()),
{
}

/// The nodes of two plugins come out in their configured order: those of the
/// first, then those of the second.
pub proof fn lemma_order_kept<P: OovProviderPlugin>(
    a: P,
    b: P,
    input_text: Utf8InputText,
    offset: usize,
    has_other_words: bool,
)
    requires
        oov_of(a, input_text, offset, has_other_words) is Ok,
        oov_of(b, input_text, offset, has_other_words) is Ok,
    ensures
        oov_of_all(seq![a, b], input_text, offset, has_other_words, 0) == Ok::<Seq<Node>, SudachiError>(
            oov_of(a, input_text, offset, has_other_words)->Ok_0 + oov_of(
                b,
                input_text,
                offset,
                has_other_words,
            )->Ok_0,
        ),
{
    let s = seq![a, b];
    assert(oov_of_all(s, input_text, offset, has_other_words, 2) == Ok::<Seq<Node>, SudachiError>(
        Seq::empty(),
    ));
    assert(oov_of(b, input_text, offset, has_other_words)->Ok_0 + Seq::<Node>::empty()
        =~= oov_of(b, input_text, offset, has_other_words)->Ok_0);
    assert(s[0] == a && s[1] == b);
    assert(oov_of_all(s, input_text, offset, has_other_words, 1) == Ok::<Seq<Node>, SudachiError>(
        oov_of(b, input_text, offset, has_other_words)->Ok_0,
    ));
}

} // verus!
