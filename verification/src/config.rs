//! The user's configuration: where it lives, what stands for a missing or bad
//! file, and how it merges with the command line.

use vstd::prelude::*;
use crate::exit::{because, says_because, Error};
use crate::i18n::{said, say1, Catalog};
use crate::paths::{Base, Location};
use crate::text::{same_text, texts};

verus! {

/// The configuration file. A missing file stands for the default.
#[derive(Debug)]
pub struct UserConfig {
    pub relays: RelaySection,
}

/// Relays in the configuration.
#[derive(Debug)]
pub struct RelaySection {
    /// Extra relay URLs, merged with the public ones unless `no_n0`.
    pub urls: Vec<String>,
    /// Use only `urls`.
    pub no_n0: bool,
    /// What `--relay-only` is when the flag is absent.
    pub relay_only: bool,
}

impl Default for RelaySection {
    fn default() -> (r: RelaySection)
        ensures
            texts(r.urls@) == Seq::<Seq<char>>::empty(),
            !r.no_n0,
            !r.relay_only,
    {
        let urls: Vec<String> = Vec::new();
        proof {
            assert(texts(urls@) =~= Seq::<Seq<char>>::empty());
        }
        RelaySection { urls, no_n0: false, relay_only: false }
    }
}

impl Default for UserConfig {
    fn default() -> (r: UserConfig)
        ensures
            texts(r.relays.urls@) == Seq::<Seq<char>>::empty(),
            !r.relays.no_n0,
            !r.relays.relay_only,
    {
        UserConfig { relays: RelaySection::default() }
    }
}

/// The components of the configuration directory under its base.
pub open spec fn config_dir_parts(xdg_set: bool, home_set: bool) -> (Base, Seq<Seq<char>>) {
    if xdg_set {
        (Base::XdgConfigHome, seq!["link-p2p"@])
    } else if home_set {
        (Base::Home, seq![".config"@, "link-p2p"@])
    } else {
        (Base::CurrentDir, seq!["."@])
    }
}

/// The directory of identity, configuration and contacts. `xdg_set` and
/// `home_set` say whether `XDG_CONFIG_HOME` and `HOME` are set and not empty.
pub fn config_dir(xdg_set: bool, home_set: bool) -> (r: Location)
    ensures
        (r.base, r.names()) == config_dir_parts(xdg_set, home_set),
{
    let r = if xdg_set {
        Location::at(Base::XdgConfigHome).join("link-p2p")
    } else if home_set {
        Location::at(Base::Home).join(".config").join("link-p2p")
    } else {
        Location::at(Base::CurrentDir).join(".")
    };
    proof {
        assert(r.names() =~= config_dir_parts(xdg_set, home_set).1);
    }
    r
}

/// A file in the configuration directory.
pub fn config_file(xdg_set: bool, home_set: bool, name: &str) -> (r: Location)
    ensures
        r.base == config_dir_parts(xdg_set, home_set).0,
        r.names() == config_dir_parts(xdg_set, home_set).1.push(name@),
{
    config_dir(xdg_set, home_set).join(name)
}

/// The configuration file.
pub fn config_path(xdg_set: bool, home_set: bool) -> (r: Location)
    ensures
        r.base == config_dir_parts(xdg_set, home_set).0,
        r.names() == config_dir_parts(xdg_set, home_set).1.push("config.toml"@),
{
    config_file(xdg_set, home_set, "config.toml")
}

/// What reading the configuration file gave.
#[derive(Debug)]
pub enum ConfigFile {
    /// There is none.
    Missing,
    /// It could not be read, for this reason.
    Unreadable(String),
    /// It was read and is not a configuration, for this reason.
    Malformed(String),
    /// It was read.
    Parsed(UserConfig),
}

/// Why there is no configuration, with the cause.
#[derive(Debug)]
pub enum ConfigError {
    Unreadable(String),
    Malformed(String),
}

impl ConfigError {
    /// What is reported of the file at `path`, and why.
    pub fn error(self, catalog: &Catalog, path: String) -> (r: Error)
        ensures
            match self {
                ConfigError::Unreadable(why) => says_because(
                    r,
                    said(catalog@, "reading config {0}"@, seq![path@]),
                    None,
                    why@,
                ),
                ConfigError::Malformed(why) => says_because(
                    r,
                    said(catalog@, "parsing config {0}"@, seq![path@]),
                    None,
                    why@,
                ),
            },
    {
        match self {
            ConfigError::Unreadable(why) => because(say1(catalog, "reading config {0}", path), why),
            ConfigError::Malformed(why) => because(say1(catalog, "parsing config {0}", path), why),
        }
    }
}

/// The configuration that a file gives; a missing file gives the default.
pub fn load(file: ConfigFile) -> (r: Result<UserConfig, ConfigError>)
    ensures
        match file {
            ConfigFile::Missing => r is Ok && texts(r->Ok_0.relays.urls@) == Seq::<
                Seq<char>,
            >::empty() && !r->Ok_0.relays.no_n0 && !r->Ok_0.relays.relay_only,
            ConfigFile::Unreadable(why) => r == Err::<UserConfig, ConfigError>(
                ConfigError::Unreadable(why),
            ),
            ConfigFile::Malformed(why) => r == Err::<UserConfig, ConfigError>(
                ConfigError::Malformed(why),
            ),
            ConfigFile::Parsed(cfg) => r == Ok::<UserConfig, ConfigError>(cfg),
        },
{
    match file {
        ConfigFile::Missing => Ok(UserConfig::default()),
        ConfigFile::Unreadable(why) => Err(ConfigError::Unreadable(why)),
        ConfigFile::Malformed(why) => Err(ConfigError::Malformed(why)),
        ConfigFile::Parsed(cfg) => Ok(cfg),
    }
}

/// Like [`load`], with the default in place of an error.
pub fn load_or_default(file: ConfigFile) -> (r: UserConfig)
    ensures
        match file {
            ConfigFile::Parsed(cfg) => r == cfg,
            _ => texts(r.relays.urls@) == Seq::<Seq<char>>::empty() && !r.relays.no_n0
                && !r.relays.relay_only,
        },
{
    match load(file) {
        Ok(cfg) => cfg,
        Err(_) => UserConfig::default(),
    }
}

/// `s` with every repetition left out; what came first stays first.
pub open spec fn first_seen(s: Seq<Seq<char>>) -> Seq<Seq<char>>
    decreases s.len(),
{
    if s.len() == 0 {
        Seq::empty()
    } else {
        let before = first_seen(s.drop_last());
        if before.contains(s.last()) {
            before
        } else {
            before.push(s.last())
        }
    }
}

fn holds(list: &Vec<String>, s: &str) -> (r: bool)
    ensures
        r == texts(list@).contains(s@),
{
    let mut i: usize = 0;
    while i < list.len()
        invariant
            i <= list@.len(),
            forall|j: int| 0 <= j < i ==> (#[trigger] list@[j])@ != s@,
        decreases list@.len() - i,
    {
        if same_text(list[i].as_str(), s) {
            proof {
                assert(texts(list@)[i as int] == s@);
            }
            return true;
        }
        i = i + 1;
    }
    proof {
        assert forall|j: int| 0 <= j < texts(list@).len() implies texts(list@)[j] != s@ by {
            assert(list@[j]@ != s@);
        }
    }
    false
}

fn push_new(out: &mut Vec<String>, s: &str)
    ensures
        texts(final(out)@) == (if texts(old(out)@).contains(s@) {
            texts(old(out)@)
        } else {
            texts(old(out)@).push(s@)
        }),
{
    if !holds(out, s) {
        out.push(s.to_owned());
        proof {
            assert(texts(out@) =~= texts(old(out)@).push(s@));
        }
    }
}

/// Relays of the command line, then those of the configuration that are not
/// listed yet; URLs are compared as they are written.
pub fn merge_relay_urls(cli: &Vec<String>, cfg: &UserConfig) -> (r: Vec<String>)
    ensures
        texts(r@) == first_seen(texts(cli@) + texts(cfg.relays.urls@)),
{
    let mut out: Vec<String> = Vec::new();
    let ghost all = texts(cli@) + texts(cfg.relays.urls@);
    let mut i: usize = 0;
    proof {
        assert(texts(out@) =~= Seq::<Seq<char>>::empty());
    }
    while i < cli.len()
        invariant
            i <= cli@.len(),
            all == texts(cli@) + texts(cfg.relays.urls@),
            texts(out@) == first_seen(all.take(i as int)),
        decreases cli@.len() - i,
    {
        proof {
            assert(all.take(i + 1).drop_last() =~= all.take(i as int));
            assert(all.take(i + 1).last() == cli@[i as int]@);
        }
        push_new(&mut out, cli[i].as_str());
        i = i + 1;
    }
    let mut j: usize = 0;
    while j < cfg.relays.urls.len()
        invariant
            j <= cfg.relays.urls@.len(),
            all == texts(cli@) + texts(cfg.relays.urls@),
            texts(out@) == first_seen(all.take(cli@.len() + j)),
        decreases cfg.relays.urls@.len() - j,
    {
        proof {
            let k = cli@.len() + j;
            assert(all.take(k + 1).drop_last() =~= all.take(k));
            assert(all.take(k + 1).last() == cfg.relays.urls@[j as int]@);
        }
        push_new(&mut out, cfg.relays.urls[j].as_str());
        j = j + 1;
    }
    proof {
        assert(all.take(all.len() as int) =~= all);
    }
    out
}

/// A merged list holds every URL of its parts and repeats none.
pub proof fn law_merged_relays_are_the_same_without_repeats(s: Seq<Seq<char>>, url: Seq<char>)
    ensures
        first_seen(s).no_duplicates(),
        first_seen(s).contains(url) == s.contains(url),
    decreases s.len(),
{
    if s.len() > 0 {
        let before = first_seen(s.drop_last());
        law_merged_relays_are_the_same_without_repeats(s.drop_last(), url);
        law_merged_relays_are_the_same_without_repeats(s.drop_last(), s.last());
        assert(s =~= s.drop_last().push(s.last()));
        if s.drop_last().contains(url) {
            let i = choose|i: int| 0 <= i < s.drop_last().len() && s.drop_last()[i] == url;
            assert(s[i] == url);
        }
        if s.contains(url) && url != s.last() {
            let i = choose|i: int| 0 <= i < s.len() && s[i] == url;
            assert(s.drop_last()[i] == url);
        }
        if s.last() == url {
            assert(s[s.len() - 1] == url);
        }
        if !before.contains(s.last()) {
            let now = before.push(s.last());
            if before.contains(url) {
                let i = choose|i: int| 0 <= i < before.len() && before[i] == url;
                assert(now[i] == url);
            }
            if url == s.last() {
                assert(now[before.len() as int] == url);
            }
            if now.contains(url) && url != s.last() {
                let i = choose|i: int| 0 <= i < now.len() && now[i] == url;
                assert(before[i] == url);
            }
        }
    }
}

/// The relays of the command line come first, in their order; one that it
/// lists twice stands where it was listed first.
pub proof fn law_command_line_relays_come_first(cli: Seq<Seq<char>>, cfg: Seq<Seq<char>>)
    ensures
        first_seen(cli).is_prefix_of(first_seen(cli + cfg)),
        cli.no_duplicates() ==> first_seen(cli) == cli,
    decreases cfg.len(),
{
    if cli.no_duplicates() {
        lemma_first_seen_unique(cli);
    }
    if cfg.len() > 0 {
        law_command_line_relays_come_first(cli, cfg.drop_last());
        assert((cli + cfg).drop_last() =~= cli + cfg.drop_last());
        let n = first_seen(cli).len() as int;
        let before = first_seen(cli + cfg.drop_last());
        assert(first_seen(cli + cfg).take(n) =~= before.take(n));
        assert(first_seen(cli + cfg).subrange(0, n) =~= before.subrange(0, n));
    } else {
        assert(cli + cfg =~= cli);
        assert(first_seen(cli).subrange(0, first_seen(cli).len() as int) =~= first_seen(cli));
    }
}

proof fn lemma_first_seen_unique(s: Seq<Seq<char>>)
    requires
        s.no_duplicates(),
    ensures
        first_seen(s) == s,
    decreases s.len(),
{
    if s.len() > 0 {
        lemma_first_seen_unique(s.drop_last());
        if s.drop_last().contains(s.last()) {
            let i = choose|i: int| 0 <= i < s.drop_last().len() && s.drop_last()[i] == s.last();
            assert(s[i] == s[s.len() - 1]);
        }
        assert(s.drop_last().push(s.last()) =~= s);
    }
}

/// Why `config init` does not write a file: there is one, and `--force` was
/// not given.
pub fn init_refused(exists: bool, force: bool) -> (r: bool)
    ensures
        r == (exists && !force),
{
    exists && !force
}

/// Whether one URL is mentioned before another is mentioned at all.
pub open spec fn mentioned_before(s: Seq<Seq<char>>, a: Seq<char>, b: Seq<char>) -> bool {
    exists|p: int|
        0 <= p < s.len() && #[trigger] s[p] == a && forall|q: int|
            0 <= q <= p ==> #[trigger] s[q] != b
}

proof fn lemma_first_seen_order(s: Seq<Seq<char>>, i: int, j: int)
    requires
        0 <= i < j < first_seen(s).len(),
    ensures
        mentioned_before(s, first_seen(s)[i], first_seen(s)[j]),
    decreases s.len(),
{
    let front = s.drop_last();
    let before = first_seen(front);
    let now = first_seen(s);
    if j < before.len() {
        lemma_first_seen_order(front, i, j);
        let p = choose|p: int|
            0 <= p < front.len() && #[trigger] front[p] == before[i] && forall|q: int|
                0 <= q <= p ==> #[trigger] front[q] != before[j];
        assert(s[p] == now[i]);
        assert forall|q: int| 0 <= q <= p implies #[trigger] s[q] != now[j] by {
            assert(front[q] != before[j]);
        }
    } else {
        assert(now[i] == before[i] && now[j] == s.last());
        law_merged_relays_are_the_same_without_repeats(front, s.last());
        law_merged_relays_are_the_same_without_repeats(front, before[i]);
        assert(before.contains(before[i]));
        let p = choose|p: int| 0 <= p < front.len() && front[p] == before[i];
        assert(s[p] == now[i]);
        assert forall|q: int| 0 <= q <= p implies #[trigger] s[q] != now[j] by {
            if s[q] == s.last() {
                assert(front[q] == s.last());
                assert(front.contains(s.last()));
            }
        }
    }
}

/// The merged list holds exactly the URLs of the command line and of the
/// configuration, none twice; those of the command line stand before what only
/// the configuration has, and each list keeps the order of first mention.
pub proof fn law_relays_are_merged_in_order(
    cli: Vec<String>,
    cfg: UserConfig,
    r: Vec<String>,
    url: Seq<char>,
    i: int,
    j: int,
)
    requires
        call_ensures(merge_relay_urls, (&cli, &cfg), r),
    ensures
        ({
            let all = texts(cli@) + texts(cfg.relays.urls@);
            &&& texts(r@).contains(url) <==> all.contains(url)
            &&& texts(r@).no_duplicates()
            &&& 0 <= i < j < r@.len() ==> mentioned_before(all, r@[i]@, r@[j]@)
        }),
{
    let all = texts(cli@) + texts(cfg.relays.urls@);
    law_merged_relays_are_the_same_without_repeats(all, url);
    assert(texts(r@).len() == r@.len());
    if 0 <= i < j < r@.len() {
        assert(texts(r@)[i] == r@[i]@ && texts(r@)[j] == r@[j]@);
        lemma_first_seen_order(all, i, j);
    }
}

/// A file that was read is taken as it is; without one, or with one that
/// cannot be read, there are no relays and no restrictions, but only the
/// missing one is no error.
pub proof fn law_missing_config_is_the_default(
    file: ConfigFile,
    strict: Result<UserConfig, ConfigError>,
    lenient: UserConfig,
)
    requires
        call_ensures(load, (file,), strict),
        call_ensures(load_or_default, (file,), lenient),
    ensures
        file matches ConfigFile::Parsed(cfg) ==> strict == Ok::<UserConfig, ConfigError>(cfg)
            && lenient == cfg,
        !(file is Parsed) ==> lenient.relays.urls@.len() == 0 && !lenient.relays.no_n0
            && !lenient.relays.relay_only,
        file is Missing ==> strict is Ok && strict->Ok_0.relays.urls@.len() == 0,
        strict is Err <==> file is Unreadable || file is Malformed,
{
    if !(file is Parsed) {
        assert(texts(lenient.relays.urls@).len() == lenient.relays.urls@.len());
    }
    if file is Missing {
        assert(texts(strict->Ok_0.relays.urls@).len() == strict->Ok_0.relays.urls@.len());
    }
}

/// Everything is kept in `link-p2p` under the configuration directory of the
/// environment, and without one in `.config/link-p2p` under the home directory;
/// without either, in the working directory.
pub proof fn law_files_are_kept_together(
    xdg: bool,
    home: bool,
    name: &str,
    dir: Location,
    file: Location,
)
    requires
        call_ensures(config_dir, (xdg, home), dir),
        call_ensures(config_file, (xdg, home, name), file),
    ensures
        dir.base == Base::XdgConfigHome <==> xdg,
        dir.base == Base::Home <==> !xdg && home,
        dir.base == Base::CurrentDir <==> !xdg && !home,
        xdg ==> dir.names() == seq!["link-p2p"@],
        !xdg && home ==> dir.names() == seq![".config"@] + seq!["link-p2p"@],
        file.base == dir.base,
        file.names() == dir.names() + seq![name@],
{
    assert(seq![".config"@] + seq!["link-p2p"@] =~= seq![".config"@, "link-p2p"@]);
    assert(dir.names().push(name@) =~= dir.names() + seq![name@]);
}

} // verus!
