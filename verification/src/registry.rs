//! The catalog of applications whose data can be backed up: for each one
//! the remote paths that hold its data, the service that has to be stopped
//! while they are copied, and who owns the files.

use crate::text::text_eq;
use vstd::prelude::*;

verus! {

/// What the catalog says of one application, as plain text values.
pub struct AppProfile {
    pub name: Seq<char>,
    pub service: Option<Seq<char>>,
    pub paths: Seq<Seq<char>>,
    pub owner: Option<(Seq<char>, Seq<char>)>,
}

/// The backup-relevant properties of one application.
#[derive(Debug)]
pub struct AppBackupConfig {
    pub name: &'static str,
    pub systemd_service: Option<&'static str>,
    pub paths: Vec<&'static str>,
    pub owner: Option<(&'static str, &'static str)>,
}

/// The texts of a list of paths.
pub open spec fn path_texts(paths: Seq<&'static str>) -> Seq<Seq<char>> {
    Seq::new(paths.len(), |i: int| paths[i]@)
}

impl View for AppBackupConfig {
    type V = AppProfile;

    open spec fn view(&self) -> AppProfile {
        AppProfile {
            name: self.name@,
            service: match self.systemd_service {
                Some(s) => Some(s@),
                None => None,
            },
            paths: path_texts(self.paths@),
            owner: match self.owner {
                Some((u, g)) => Some((u@, g@)),
                None => None,
            },
        }
    }
}

/// The profiles of a list of configurations, in the same order.
pub open spec fn profiles(configs: Seq<AppBackupConfig>) -> Seq<AppProfile> {
    Seq::new(configs.len(), |i: int| configs[i]@)
}

/// The calendar and contacts server.
pub open spec fn radicale_profile() -> AppProfile {
    AppProfile {
        name: "radicale"@,
        service: Some("radicale"@),
        paths: seq!["/var/lib/radicale/collections"@, "/etc/radicale"@],
        owner: Some(("radicale"@, "radicale"@)),
    }
}

/// The feed reader.
pub open spec fn freshrss_profile() -> AppProfile {
    AppProfile {
        name: "freshrss"@,
        service: Some("freshrss"@),
        paths: seq!["/var/lib/freshrss"@, "/opt/freshrss/data"@],
        owner: Some(("freshrss"@, "freshrss"@)),
    }
}

/// Navidrome's music library is large, so it is part of the backup only on
/// request.
pub open spec fn navidrome_profile(include_music: bool) -> AppProfile {
    AppProfile {
        name: "navidrome"@,
        service: Some("navidrome"@),
        paths: if include_music {
            seq!["/var/lib/navidrome"@, "/etc/navidrome"@, "/srv/music"@]
        } else {
            seq!["/var/lib/navidrome"@, "/etc/navidrome"@]
        },
        owner: Some(("navidrome"@, "navidrome"@)),
    }
}

/// The library of books.
pub open spec fn calibre_profile() -> AppProfile {
    AppProfile {
        name: "calibre"@,
        service: Some("calibre"@),
        paths: seq!["/srv/calibre"@, "/opt/calibre"@, "/home/calibre"@],
        owner: Some(("calibre"@, "calibre"@)),
    }
}

/// The file share. It runs inside the web server, so it has no service
/// of its own to stop, and its files keep the owner they have.
pub open spec fn webdav_profile() -> AppProfile {
    AppProfile {
        name: "webdav"@,
        service: None,
        paths: seq!["/var/www/webdav-files"@],
        owner: None,
    }
}

/// The whole catalog, in its fixed order.
pub open spec fn catalog() -> Seq<AppProfile> {
    seq![
        radicale_profile(),
        freshrss_profile(),
        navidrome_profile(false),
        calibre_profile(),
        webdav_profile(),
    ]
}

/// The catalog entry that goes by `name`, if there is one.
pub open spec fn profile_of(name: Seq<char>, include_music: bool) -> Option<AppProfile> {
    if name == "radicale"@ {
        Some(radicale_profile())
    } else if name == "freshrss"@ {
        Some(freshrss_profile())
    } else if name == "navidrome"@ {
        Some(navidrome_profile(include_music))
    } else if name == "calibre"@ {
        Some(calibre_profile())
    } else if name == "webdav"@ {
        Some(webdav_profile())
    } else {
        None
    }
}

impl AppBackupConfig {
    /// Every application of the catalog, in catalog order, without
    /// Navidrome's music library.
    pub fn all() -> (r: Vec<Self>)
        ensures
            profiles(r@) == catalog(),
    {
        let mut r: Vec<Self> = Vec::new();
        r.push(Self::radicale());
        r.push(Self::freshrss());
        r.push(Self::navidrome(false));
        r.push(Self::calibre());
        r.push(Self::webdav());
        assert(profiles(r@) =~= catalog());
        r
    }

    /// Looks an application up by its exact name.
    pub fn by_name(name: &str, include_music: bool) -> (r: Option<Self>)
        ensures
            match r {
                Some(config) => profile_of(name@, include_music) == Some(config@),
                None => profile_of(name@, include_music) is None,
            },
    {
        if text_eq(name, "radicale") {
            Some(Self::radicale())
        } else if text_eq(name, "freshrss") {
            Some(Self::freshrss())
        } else if text_eq(name, "navidrome") {
            Some(Self::navidrome(include_music))
        } else if text_eq(name, "calibre") {
            Some(Self::calibre())
        } else if text_eq(name, "webdav") {
            Some(Self::webdav())
        } else {
            None
        }
    }

    /// The entry of the calendar and contacts server.
    pub fn radicale() -> (r: Self)
        ensures
            r@ == radicale_profile(),
    {
        let mut paths: Vec<&'static str> = Vec::new();
        paths.push("/var/lib/radicale/collections");
        paths.push("/etc/radicale");
        assert(path_texts(paths@) =~= radicale_profile().paths);
        Self {
            name: "radicale",
            systemd_service: Some("radicale"),
            paths,
            owner: Some(("radicale", "radicale")),
        }
    }

    /// The entry of the feed reader.
    pub fn freshrss() -> (r: Self)
        ensures
            r@ == freshrss_profile(),
    {
        let mut paths: Vec<&'static str> = Vec::new();
        paths.push("/var/lib/freshrss");
        paths.push("/opt/freshrss/data");
        assert(path_texts(paths@) =~= freshrss_profile().paths);
        Self {
            name: "freshrss",
            systemd_service: Some("freshrss"),
            paths,
            owner: Some(("freshrss", "freshrss")),
        }
    }

    /// The entry of the music server, with or without the music itself.
    pub fn navidrome(include_music: bool) -> (r: Self)
        ensures
            r@ == navidrome_profile(include_music),
    {
        let mut paths: Vec<&'static str> = Vec::new();
        paths.push("/var/lib/navidrome");
        paths.push("/etc/navidrome");
        if include_music {
            paths.push("/srv/music");
        }
        assert(path_texts(paths@) =~= navidrome_profile(include_music).paths);
        Self {
            name: "navidrome",
            systemd_service: Some("navidrome"),
            paths,
            owner: Some(("navidrome", "navidrome")),
        }
    }

    /// The entry of the library of books.
    pub fn calibre() -> (r: Self)
        ensures
            r@ == calibre_profile(),
    {
        let mut paths: Vec<&'static str> = Vec::new();
        paths.push("/srv/calibre");
        paths.push("/opt/calibre");
        paths.push("/home/calibre");
        assert(path_texts(paths@) =~= calibre_profile().paths);
        Self {
            name: "calibre",
            systemd_service: Some("calibre"),
            paths,
            owner: Some(("calibre", "calibre")),
        }
    }

    /// The entry of the file share.
    pub fn webdav() -> (r: Self)
        ensures
            r@ == webdav_profile(),
    {
        let mut paths: Vec<&'static str> = Vec::new();
        paths.push("/var/www/webdav-files");
        assert(path_texts(paths@) =~= webdav_profile().paths);
        Self { name: "webdav", systemd_service: None, paths, owner: None }
    }

    /// A second value with the same contents.
    pub fn duplicate(&self) -> (r: Self)
        ensures
            r@ == self@,
    {
        let mut paths: Vec<&'static str> = Vec::new();
        let mut i: usize = 0;
        while i < self.paths.len()
            invariant
                i <= self.paths.len(),
                paths@ == self.paths@.take(i as int),
            decreases self.paths.len() - i,
        {
            paths.push(self.paths[i]);
            assert(paths@ =~= self.paths@.take(i + 1));
            i = i + 1;
        }
        assert(paths@ =~= self.paths@);
        Self { name: self.name, systemd_service: self.systemd_service, paths, owner: self.owner }
    }
}

/// A name leads to the entry that carries that name.
pub proof fn lemma_profile_carries_its_name(name: Seq<char>, include_music: bool)
    ensures
        profile_of(name, include_music) matches Some(p) ==> p.name == name,
{
}

/// Looking up the name of any catalog entry finds that entry again, so no
/// two entries share a name.
pub proof fn lemma_catalog_is_keyed_by_name()
    ensures
        catalog().len() == 5,
        forall|i: int|
            0 <= i < catalog().len() ==> profile_of(#[trigger] catalog()[i].name, false) == Some(
                catalog()[i],
            ),
        forall|i: int, j: int|
            0 <= i < j < catalog().len() ==> catalog()[i].name != catalog()[j].name,
{
    reveal_strlit("radicale");
    reveal_strlit("freshrss");
    reveal_strlit("navidrome");
    reveal_strlit("calibre");
    reveal_strlit("webdav");
    assert("radicale"@ != "freshrss"@) by {
        assert("radicale"@[0] != "freshrss"@[0]);
    }
    assert("radicale"@.len() != "navidrome"@.len());
    assert("radicale"@.len() != "calibre"@.len());
    assert("radicale"@.len() != "webdav"@.len());
    assert("freshrss"@.len() != "navidrome"@.len());
    assert("freshrss"@.len() != "calibre"@.len());
    assert("freshrss"@.len() != "webdav"@.len());
    assert("navidrome"@.len() != "calibre"@.len());
    assert("navidrome"@.len() != "webdav"@.len());
    assert("calibre"@.len() != "webdav"@.len());
}

/// Every path of every catalog entry is absolute and ends in a name.
pub proof fn lemma_paths_are_absolute(name: Seq<char>, include_music: bool, i: int)
    requires
        profile_of(name, include_music) is Some,
        0 <= i < profile_of(name, include_music)->0.paths.len(),
    ensures
        profile_of(name, include_music)->0.paths[i].len() > 1,
        profile_of(name, include_music)->0.paths[i][0] == '/',
        profile_of(name, include_music)->0.paths[i].last() != '/',
        profile_of(name, include_music)->0.paths[i].last() != '.',
{
    reveal_strlit("/var/lib/radicale/collections");
    reveal_strlit("/etc/radicale");
    reveal_strlit("/var/lib/freshrss");
    reveal_strlit("/opt/freshrss/data");
    reveal_strlit("/var/lib/navidrome");
    reveal_strlit("/etc/navidrome");
    reveal_strlit("/srv/music");
    reveal_strlit("/srv/calibre");
    reveal_strlit("/opt/calibre");
    reveal_strlit("/home/calibre");
    reveal_strlit("/var/www/webdav-files");
}

} // verus!
