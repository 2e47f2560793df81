//! The data the engine works on — manifest rows, local item descriptors,
//! the configuration, and the metadata service's reply shapes — each with
//! its mathematical view.

use vstd::prelude::*;

verus! {

/// Mathematical image of an `Option<String>`: the character sequence it
/// holds, if any.
pub open spec fn opt_str_view(o: Option<String>) -> Option<Seq<char>> {
    match o {
        Some(s) => Some(s@),
        None => None,
    }
}

/// Mathematical image of a list of strings.
pub open spec fn str_seq_view(v: Seq<String>) -> Seq<Seq<char>> {
    v.map_values(|s: String| s@)
}

/// One row of a manifest: a stable remote id, an optional display name and an
/// optional content checksum.
pub struct Mod {
    pub id: String,
    pub name: Option<String>,
    pub checksum: Option<String>,
}

pub ghost struct ModView {
    pub id: Seq<char>,
    pub name: Option<Seq<char>>,
    pub checksum: Option<Seq<char>>,
}

impl View for Mod {
    type V = ModView;

    open spec fn view(&self) -> ModView {
        ModView { id: self.id@, name: opt_str_view(self.name), checksum: opt_str_view(self.checksum) }
    }
}

impl Clone for Mod {
    fn clone(&self) -> (r: Self)
        ensures
            r@ == self@,
    {
        Mod { id: self.id.clone(), name: clone_opt_string(&self.name), checksum: clone_opt_string(&self.checksum) }
    }
}

/// A portable list of desired items, used to reproduce a collection elsewhere.
pub struct Manifest {
    pub mods: Vec<Mod>,
}

impl View for Manifest {
    type V = Seq<ModView>;

    open spec fn view(&self) -> Seq<ModView> {
        self.mods@.map_values(|m: Mod| m@)
    }
}

/// Local per-item metadata, read from a structured text file inside each
/// item's folder.  Read-only; this tool never writes one.
pub struct Descriptor {
    pub name: String,
    pub dependencies: Option<Vec<String>>,
    pub remote_file_id: Option<String>,
    pub supported_version: Option<String>,
    pub tags: Option<Vec<String>>,
    pub version: Option<String>,
}

pub ghost struct DescriptorView {
    pub name: Seq<char>,
    pub dependencies: Option<Seq<Seq<char>>>,
    pub remote_file_id: Option<Seq<char>>,
    pub supported_version: Option<Seq<char>>,
    pub tags: Option<Seq<Seq<char>>>,
    pub version: Option<Seq<char>>,
}

impl View for Descriptor {
    type V = DescriptorView;

    open spec fn view(&self) -> DescriptorView {
        DescriptorView {
            name: self.name@,
            dependencies: match self.dependencies {
                Some(ref d) => Some(str_seq_view(d@)),
                None => None,
            },
            remote_file_id: opt_str_view(self.remote_file_id),
            supported_version: opt_str_view(self.supported_version),
            tags: match self.tags {
                Some(ref t) => Some(str_seq_view(t@)),
                None => None,
            },
            version: opt_str_view(self.version),
        }
    }
}

/// The two settings every operation starts from.
pub struct Config {
    pub collection_path: String,
    pub steam_webapi_key: String,
}

pub ghost struct ConfigView {
    pub collection_path: Seq<char>,
    pub steam_webapi_key: Seq<char>,
}

impl View for Config {
    type V = ConfigView;

    open spec fn view(&self) -> ConfigView {
        ConfigView { collection_path: self.collection_path@, steam_webapi_key: self.steam_webapi_key@ }
    }
}

/// Envelope of the remote metadata service's reply.
pub struct GetPublishedFileDetailsResponse {
    pub response: GetPublishedFileDetailsResponseInner,
}

pub struct GetPublishedFileDetailsResponseInner {
    pub publishedfiledetails: Vec<GetPublishedFileDetailsResponseItem>,
}

/// One element of the service's reply: either full metadata for an id, or a
/// marker that the id could not be served, carrying the service's numeric
/// result code.  The two shapes are told apart by structure, never coerced.
pub enum GetPublishedFileDetailsResponseItem {
    FileDetails(PublishedFileDetails),
    MissingItem { result: i32, publishedfileid: String },
}

pub ghost enum ResponseItemView {
    FileDetails(PublishedFileDetailsView),
    MissingItem { result: i32, publishedfileid: Seq<char> },
}

impl View for GetPublishedFileDetailsResponseItem {
    type V = ResponseItemView;

    open spec fn view(&self) -> ResponseItemView {
        match self {
            GetPublishedFileDetailsResponseItem::FileDetails(fd) => ResponseItemView::FileDetails(fd@),
            GetPublishedFileDetailsResponseItem::MissingItem { result, publishedfileid } =>
                ResponseItemView::MissingItem { result: *result, publishedfileid: publishedfileid@ },
        }
    }
}

impl Clone for GetPublishedFileDetailsResponseItem {
    fn clone(&self) -> (r: Self)
        ensures
            r@ == self@,
    {
        match self {
            GetPublishedFileDetailsResponseItem::FileDetails(fd) =>
                GetPublishedFileDetailsResponseItem::FileDetails(fd.clone()),
            GetPublishedFileDetailsResponseItem::MissingItem { result, publishedfileid } =>
                GetPublishedFileDetailsResponseItem::MissingItem {
                    result: *result,
                    publishedfileid: publishedfileid.clone(),
                },
        }
    }
}

/// Full metadata for one remote item.
pub struct PublishedFileDetails {
    pub publishedfileid: String,
    pub title: String,
    /// Last-updated time, in seconds since the epoch, UTC.
    pub time_updated: i64,
    pub children: Option<Vec<PublishedFileChild>>,
}

pub ghost struct PublishedFileDetailsView {
    pub publishedfileid: Seq<char>,
    pub title: Seq<char>,
    pub time_updated: i64,
    pub children: Option<Seq<Seq<char>>>,
}

impl View for PublishedFileDetails {
    type V = PublishedFileDetailsView;

    open spec fn view(&self) -> PublishedFileDetailsView {
        PublishedFileDetailsView {
            publishedfileid: self.publishedfileid@,
            title: self.title@,
            time_updated: self.time_updated,
            children: match self.children {
                Some(ref c) => Some(c@.map_values(|ch: PublishedFileChild| ch.publishedfileid@)),
                None => None,
            },
        }
    }
}

impl Clone for PublishedFileDetails {
    fn clone(&self) -> (r: Self)
        ensures
            r@ == self@,
    {
        let children = match &self.children {
            Some(c) => Some(clone_children(c)),
            None => None,
        };
        let r = PublishedFileDetails {
            publishedfileid: self.publishedfileid.clone(),
            title: self.title.clone(),
            time_updated: self.time_updated,
            children,
        };
        proof {
            assert(r@.children == self@.children);
        }
        r
    }
}

/// A reference from one remote item to another it depends on.
pub struct PublishedFileChild {
    pub publishedfileid: String,
}

impl View for PublishedFileChild {
    type V = Seq<char>;

    open spec fn view(&self) -> Seq<char> {
        self.publishedfileid@
    }
}

impl Clone for PublishedFileChild {
    fn clone(&self) -> (r: Self)
        ensures
            r@ == self@,
    {
        PublishedFileChild { publishedfileid: self.publishedfileid.clone() }
    }
}

fn clone_opt_string(o: &Option<String>) -> (r: Option<String>)
    ensures
        opt_str_view(r) == opt_str_view(*o),
{
    match o {
        Some(s) => Some(s.clone()),
        None => None,
    }
}

fn clone_children(c: &Vec<PublishedFileChild>) -> (r: Vec<PublishedFileChild>)
    ensures
        r@.map_values(|ch: PublishedFileChild| ch.publishedfileid@)
            == c@.map_values(|ch: PublishedFileChild| ch.publishedfileid@),
{
    let mut r: Vec<PublishedFileChild> = Vec::new();
    let mut i: usize = 0;
    while i < c.len()
        invariant
            i <= c.len(),
            r@.len() == i,
            forall|k: int| 0 <= k < i ==> r@[k].publishedfileid@ == c@[k].publishedfileid@,
        decreases c.len() - i,
    {
        r.push(c[i].clone());
        i = i + 1;
    }
    proof {
        assert(r@.map_values(|ch: PublishedFileChild| ch.publishedfileid@)
            =~= c@.map_values(|ch: PublishedFileChild| ch.publishedfileid@));
    }
    r
}

} // verus!
