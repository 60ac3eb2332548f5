use vstd::prelude::*;

use crate::model::fssa::{ModData, ModSide, ModpackData, ModpackView};
use crate::util::files::{is_filename, lemma_filename_conditions, spec_is_filename};
use crate::util::text::concat;
use crate::util::url::{encode_path, url_encode_path};

verus! {

/// Where the modpack's API is served below the server's origin.
pub open spec fn spec_api_path(origin: Seq<char>) -> Seq<char> {
    origin + "/api/fssa"@
}

/// The URL of a file of one kind (`/mod/`, `/datapack/`) below the API path.
pub open spec fn spec_file_url(api_path: Seq<char>, kind: Seq<char>, name: Seq<char>) -> Seq<
    char,
> {
    api_path + kind + url_encode_path(name)
}

/// The catalogue entries of the mods in one directory, all on the same
/// sides.
pub open spec fn spec_mod_entries(api_path: Seq<char>, names: Seq<String>, side: u8) -> Seq<
    (u8, Seq<char>, Seq<char>),
> {
    names.map_values(|n: String| (side, n@, spec_file_url(api_path, "/mod/"@, n@)))
}

/// The modpack built from the file names found in the mod and datapack
/// directories: mods on both sides first, then server mods, then client
/// mods, each in the order given.
pub open spec fn spec_modpack(
    api_path: Seq<char>,
    datapacks: Seq<String>,
    both: Seq<String>,
    server: Seq<String>,
    client: Seq<String>,
) -> ModpackView {
    ModpackView {
        version: FssaModule::MODPACK_VERSION@,
        mods: spec_mod_entries(api_path, both, 3) + spec_mod_entries(api_path, server, 1)
            + spec_mod_entries(api_path, client, 2),
        config: api_path + "/config"@,
        datapacks: datapacks.map_values(|d: String| spec_file_url(api_path, "/datapack/"@, d@)),
    }
}

/// What the catalogue built for the server at `origin` holds, entry by
/// entry: the i-th datapack link is the API path of `origin`, then
/// `/datapack/` and the encoded i-th datapack name; the mods come in the
/// order both, server, client, each entry with its side (3, 1, 2), its own
/// name and the link `/mod/` plus its own encoded name.
pub proof fn lemma_catalogue(
    origin: Seq<char>,
    datapacks: Seq<String>,
    both: Seq<String>,
    server: Seq<String>,
    client: Seq<String>,
)
    ensures
        ({
            let m = spec_modpack(spec_api_path(origin), datapacks, both, server, client);
            &&& spec_api_path(origin) == origin + "/api/fssa"@
            &&& m.version == "1.0.0"@
            &&& m.config == origin + "/api/fssa/config"@
            &&& m.datapacks.len() == datapacks.len()
            &&& forall|i: int|
                0 <= i < datapacks.len() ==> #[trigger] m.datapacks[i] == origin
                    + "/api/fssa/datapack/"@ + url_encode_path(datapacks[i]@)
            &&& m.mods.len() == both.len() + server.len() + client.len()
            &&& forall|i: int|
                0 <= i < both.len() ==> #[trigger] m.mods[i] == (
                    3u8,
                    both[i]@,
                    origin + "/api/fssa/mod/"@ + url_encode_path(both[i]@),
                )
            &&& forall|i: int|
                0 <= i < server.len() ==> #[trigger] m.mods[both.len() + i] == (
                    1u8,
                    server[i]@,
                    origin + "/api/fssa/mod/"@ + url_encode_path(server[i]@),
                )
            &&& forall|i: int|
                0 <= i < client.len() ==> #[trigger] m.mods[both.len() + server.len() + i] == (
                    2u8,
                    client[i]@,
                    origin + "/api/fssa/mod/"@ + url_encode_path(client[i]@),
                )
        }),
{
    reveal_strlit("/api/fssa");
    reveal_strlit("/api/fssa/config");
    reveal_strlit("/config");
    reveal_strlit("/datapack/");
    reveal_strlit("/api/fssa/datapack/");
    reveal_strlit("/mod/");
    reveal_strlit("/api/fssa/mod/");
    let api = spec_api_path(origin);
    let m = spec_modpack(api, datapacks, both, server, client);
    assert(api + "/config"@ =~= origin + "/api/fssa/config"@);
    assert forall|name: Seq<char>|
        #[trigger] spec_file_url(api, "/datapack/"@, name) == origin + "/api/fssa/datapack/"@
            + url_encode_path(name) by {
        assert(api + "/datapack/"@ + url_encode_path(name) =~= origin + "/api/fssa/datapack/"@
            + url_encode_path(name));
    }
    assert forall|name: Seq<char>|
        #[trigger] spec_file_url(api, "/mod/"@, name) == origin + "/api/fssa/mod/"@
            + url_encode_path(name) by {
        assert(api + "/mod/"@ + url_encode_path(name) =~= origin + "/api/fssa/mod/"@
            + url_encode_path(name));
    }
    let eb = spec_mod_entries(api, both, 3);
    let es = spec_mod_entries(api, server, 1);
    let ec = spec_mod_entries(api, client, 2);
    assert forall|i: int| 0 <= i < both.len() implies #[trigger] m.mods[i] == (
        3u8,
        both[i]@,
        origin + "/api/fssa/mod/"@ + url_encode_path(both[i]@),
    ) by {
        assert(m.mods[i] == eb[i]);
        assert(spec_file_url(api, "/mod/"@, both[i]@) == origin + "/api/fssa/mod/"@
            + url_encode_path(both[i]@));
    }
    assert forall|i: int| 0 <= i < server.len() implies #[trigger] m.mods[both.len() + i] == (
        1u8,
        server[i]@,
        origin + "/api/fssa/mod/"@ + url_encode_path(server[i]@),
    ) by {
        assert(m.mods[both.len() + i] == es[i]);
        assert(spec_file_url(api, "/mod/"@, server[i]@) == origin + "/api/fssa/mod/"@
            + url_encode_path(server[i]@));
    }
    assert forall|i: int|
        0 <= i < client.len() implies #[trigger] m.mods[both.len() + server.len() + i] == (
        2u8,
        client[i]@,
        origin + "/api/fssa/mod/"@ + url_encode_path(client[i]@),
    ) by {
        assert(m.mods[both.len() + server.len() + i] == ec[i]);
        assert(spec_file_url(api, "/mod/"@, client[i]@) == origin + "/api/fssa/mod/"@
            + url_encode_path(client[i]@));
    }
    assert forall|i: int| 0 <= i < datapacks.len() implies #[trigger] m.datapacks[i] == origin
        + "/api/fssa/datapack/"@ + url_encode_path(datapacks[i]@) by {
        assert(spec_file_url(api, "/datapack/"@, datapacks[i]@) == origin + "/api/fssa/datapack/"@
            + url_encode_path(datapacks[i]@));
    }
}

/// The modpack service: the catalogue of mods, configuration and datapacks
/// that clients download, and where each file is kept.
pub struct FssaModule {
    api_path: String,
    modpack: ModpackData,
}

impl View for FssaModule {
    type V = (Seq<char>, ModpackView);

    closed spec fn view(&self) -> (Seq<char>, ModpackView) {
        (self.api_path@, self.modpack@)
    }
}

/// The URL of one file below the API path.
fn file_url(api_path: &str, kind: &str, name: &str) -> (r: String)
    ensures
        r@ == spec_file_url(api_path@, kind@, name@),
{
    let mut r = concat(api_path, kind);
    let enc = encode_path(name);
    r = concat(r.as_str(), enc.as_str());
    r
}

/// Appends the catalogue entries of one mod directory to `mods`.
fn push_mods(mods: &mut Vec<ModData>, api_path: &str, names: &Vec<String>, side: ModSide)
    ensures
        final(mods)@.map_values(|m: ModData| m@) == old(mods)@.map_values(|m: ModData| m@)
            + spec_mod_entries(api_path@, names@, side@),
{
    let ghost start = old(mods)@.map_values(|m: ModData| m@);
    let mut i: usize = 0;
    while i < names.len()
        invariant
            i <= names.len(),
            mods@.map_values(|m: ModData| m@) == start + spec_mod_entries(
                api_path@,
                names@.subrange(0, i as int),
                side@,
            ),
        decreases names.len() - i,
    {
        let name = names[i].as_str();
        let download = file_url(api_path, "/mod/", name);
        let entry = ModData::new(side, String::from_str(name), download);
        let ghost before = mods@;
        mods.push(entry);
        proof {
            assert(names@.subrange(0, i + 1) =~= names@.subrange(0, i as int).push(names@[i as int]));
            assert(mods@ =~= before.push(entry));
            assert(mods@.map_values(|m: ModData| m@) =~= before.map_values(|m: ModData| m@).push(entry@));
            assert(spec_mod_entries(api_path@, names@.subrange(0, i + 1), side@) =~= spec_mod_entries(
                api_path@,
                names@.subrange(0, i as int),
                side@,
            ).push(entry@));
        }
        i = i + 1;
    }
    assert(names@.subrange(0, names.len() as int) =~= names@);
}

impl FssaModule {
    /// The version the modpack is published under.
    pub const MODPACK_VERSION: &'static str = "1.0.0";
    /// The name the modpack archive is downloaded under.
    pub const MODPACK_FILENAME: &'static str = "fssa-modpack(1.0.0).zip";

    pub const RELEASE_CACHE_PATH: &'static str = "cache/fssa/release.zip";
    pub const CONFIG_CACHE_PATH: &'static str = "cache/fssa/config.zip";
    pub const CONFIG_DIR: &'static str = "data/fssa/config";

    pub const DATAPACKS_DIR: &'static str = "data/fssa/datapacks";

    pub const BOTH_MOD_DIR: &'static str = "data/fssa/both";
    pub const SERVER_MOD_DIR: &'static str = "data/fssa/server";
    pub const CLIENT_MOD_DIR: &'static str = "data/fssa/client";

    /// Builds the modpack catalogue for the server at `origin` from the file
    /// names found in the datapack directory and in the three mod
    /// directories (both sides, server, client).
    pub fn new(
        origin: &str,
        datapacks: Vec<String>,
        both: Vec<String>,
        server: Vec<String>,
        client: Vec<String>,
    ) -> (r: Self)
        ensures
            r@.0 == spec_api_path(origin@),
            r@.1 == spec_modpack(spec_api_path(origin@), datapacks@, both@, server@, client@),
            r@.1.datapacks.len() == datapacks@.len(),
            forall|i: int|
                0 <= i < datapacks@.len() ==> #[trigger] r@.1.datapacks[i] == origin@
                    + "/api/fssa/datapack/"@ + url_encode_path(datapacks@[i]@),
            r@.1.mods.len() == both@.len() + server@.len() + client@.len(),
            forall|i: int|
                0 <= i < both@.len() ==> #[trigger] r@.1.mods[i] == (
                    3u8,
                    both@[i]@,
                    origin@ + "/api/fssa/mod/"@ + url_encode_path(both@[i]@),
                ),
            forall|i: int|
                0 <= i < server@.len() ==> #[trigger] r@.1.mods[both@.len() + i] == (
                    1u8,
                    server@[i]@,
                    origin@ + "/api/fssa/mod/"@ + url_encode_path(server@[i]@),
                ),
            forall|i: int|
                0 <= i < client@.len() ==> #[trigger] r@.1.mods[both@.len() + server@.len() + i]
                    == (2u8, client@[i]@, origin@ + "/api/fssa/mod/"@ + url_encode_path(client@[i]@)),
    {
        proof {
            lemma_catalogue(origin@, datapacks@, both@, server@, client@);
        }
        let api_path = concat(origin, "/api/fssa");
        let mut links: Vec<String> = Vec::new();
        let mut i: usize = 0;
        while i < datapacks.len()
            invariant
                i <= datapacks.len(),
                links@.map_values(|d: String| d@) == datapacks@.subrange(0, i as int).map_values(
                    |d: String| spec_file_url(api_path@, "/datapack/"@, d@),
                ),
            decreases datapacks.len() - i,
        {
            let link = file_url(api_path.as_str(), "/datapack/", datapacks[i].as_str());
            let ghost before = links@;
            links.push(link);
            proof {
                assert(datapacks@.subrange(0, i + 1) =~= datapacks@.subrange(0, i as int).push(
                    datapacks@[i as int],
                ));
                assert(links@ =~= before.push(link));
                assert(links@.map_values(|d: String| d@) =~= before.map_values(|d: String| d@).push(
                    link@,
                ));
            }
            i = i + 1;
        }
        assert(datapacks@.subrange(0, datapacks.len() as int) =~= datapacks@);

        let mut mods: Vec<ModData> = Vec::new();
        assert(mods@.map_values(|m: ModData| m@) =~= Seq::empty());
        push_mods(&mut mods, api_path.as_str(), &both, ModSide::both());
        push_mods(&mut mods, api_path.as_str(), &server, ModSide::server());
        push_mods(&mut mods, api_path.as_str(), &client, ModSide::client());

        let config = concat(api_path.as_str(), "/config");
        let modpack = ModpackData::new(String::from_str(Self::MODPACK_VERSION), mods, config, links);
        let r = FssaModule { api_path, modpack };
        assert(r@.1.mods =~= spec_modpack(api_path@, datapacks@, both@, server@, client@).mods);
        r
    }

    /// The modpack catalogue.
    pub fn list(&self) -> (r: &ModpackData)
        ensures
            r@ == self@.1,
    {
        &self.modpack
    }

    /// Where the datapack `filename` is kept, when `filename` is a plain
    /// file name; `None` otherwise, so that no path outside the datapack
    /// directory is ever read.
    pub fn datapack_path(filename: &str) -> (r: Option<String>)
        ensures
            match r {
                Some(p) => spec_is_filename(filename@) && p@ == Self::DATAPACKS_DIR@ + "/"@
                    + filename@,
                None => !spec_is_filename(filename@),
            },
            (forall|j: int|
                0 <= j < filename@.len() ==> filename@[j] != '/' && filename@[j] != '\\'
                    && filename@[j] != ':') && (forall|j: int|
                #![trigger filename@[j]]
                0 <= j && j + 1 < filename@.len() ==> !(filename@[j] == '.' && filename@[j + 1]
                    == '.')) ==> r is Some,
    {
        proof {
            lemma_filename_conditions(filename@);
        }
        if is_filename(filename) {
            let dir = concat(Self::DATAPACKS_DIR, "/");
            Some(concat(dir.as_str(), filename))
        } else {
            None
        }
    }

    /// Where the mod `filename` may be kept, in the order the directories
    /// are searched (both sides, server, client); none when `filename` is not
    /// a plain file name.
    pub fn mod_paths(filename: &str) -> (r: Vec<String>)
        ensures
            spec_is_filename(filename@) ==> r@.map_values(|p: String| p@) == seq![
                Self::BOTH_MOD_DIR@ + "/"@ + filename@,
                Self::SERVER_MOD_DIR@ + "/"@ + filename@,
                Self::CLIENT_MOD_DIR@ + "/"@ + filename@,
            ],
            !spec_is_filename(filename@) ==> r@.len() == 0,
            (forall|j: int|
                0 <= j < filename@.len() ==> filename@[j] != '/' && filename@[j] != '\\'
                    && filename@[j] != ':') && (forall|j: int|
                #![trigger filename@[j]]
                0 <= j && j + 1 < filename@.len() ==> !(filename@[j] == '.' && filename@[j + 1]
                    == '.')) ==> r@.len() == 3,
    {
        proof {
            lemma_filename_conditions(filename@);
        }
        let mut r: Vec<String> = Vec::new();
        if is_filename(filename) {
            let b = concat(Self::BOTH_MOD_DIR, "/");
            r.push(concat(b.as_str(), filename));
            let s = concat(Self::SERVER_MOD_DIR, "/");
            r.push(concat(s.as_str(), filename));
            let c = concat(Self::CLIENT_MOD_DIR, "/");
            r.push(concat(c.as_str(), filename));
            assert(r@.map_values(|p: String| p@) =~= seq![
                Self::BOTH_MOD_DIR@ + "/"@ + filename@,
                Self::SERVER_MOD_DIR@ + "/"@ + filename@,
                Self::CLIENT_MOD_DIR@ + "/"@ + filename@,
            ]);
        }
        r
    }
}

} // verus!
