//! What the URL of a MySQL cluster says.
use vstd::prelude::*;
use vstd::string::*;

use crate::text::{halves, occurs_at, same_text, split_once, strip_suffix, trim_start_matches, trimmed_start};

verus! {

/// The host in a URL, as `url::Url::parse` and `url::Url::host_str` find it; none where the text is
/// not a URL or has no host.
pub uninterp spec fn url_host(url: Seq<char>) -> Option<Seq<char>>;

/// The path in a URL, as `url::Url::parse` and `url::Url::path` find it; none where the text is not
/// a URL.
pub uninterp spec fn url_path(url: Seq<char>) -> Option<Seq<char>>;

/// The query of a URL, decoded, as `url::Url::parse` and `url::Url::query_pairs` find it; none where
/// the text is not a URL.
pub uninterp spec fn url_query(url: Seq<char>) -> Option<Seq<(Seq<char>, Seq<char>)>>;

/// A text, if there is one.
pub open spec fn text_of(text: Option<String>) -> Option<Seq<char>> {
    match text {
        Some(text) => Some(text@),
        None => None,
    }
}

/// The texts of a list of pairs.
pub open spec fn pair_texts(pairs: Seq<(String, String)>) -> Seq<(Seq<char>, Seq<char>)> {
    pairs.map_values(|pair: (String, String)| (pair.0@, pair.1@))
}

/// Calls `url::Url::parse` and `url::Url::host_str`: the host depends on the text alone.
#[verifier::external_body]
fn host_of(url: &str) -> (host: Option<String>)
    ensures
        text_of(host) == url_host(url@),
{
    url::Url::parse(url).ok().and_then(|url| url.host_str().map(|host| host.to_owned()))
}

/// Calls `url::Url::parse` and `url::Url::path`: the path depends on the text alone.
#[verifier::external_body]
fn path_of(url: &str) -> (path: Option<String>)
    ensures
        text_of(path) == url_path(url@),
{
    url::Url::parse(url).ok().map(|url| url.path().to_owned())
}

/// Calls `url::Url::parse` and `url::Url::query_pairs`: the pairs depend on the text alone.
#[verifier::external_body]
fn query_of(url: &str) -> (pairs: Option<Vec<(String, String)>>)
    ensures
        match pairs {
            Some(pairs) => url_query(url@) == Some(pair_texts(pairs@)),
            None => url_query(url@) is None,
        },
{
    url::Url::parse(url).ok().map(|url| url.query_pairs().into_owned().collect())
}

/// Whether a host belongs to the hosted service that names clusters by path.
pub open spec fn is_hosted(host: Seq<char>) -> bool {
    occurs_at(host, ".psdb.cloud"@, host.len() - ".psdb.cloud"@.len())
}

/// The first label of a host.
pub open spec fn first_label(host: Seq<char>) -> Seq<char> {
    match halves(host, "."@) {
        Some((label, _)) => label,
        None => host,
    }
}

/// A label without what marks it as a proxy.
pub open spec fn without_proxy(label: Seq<char>) -> Seq<char> {
    if occurs_at(label, "-proxy"@, label.len() - "-proxy"@.len()) {
        label.take(label.len() - "-proxy"@.len())
    } else {
        label
    }
}

/// The name of the cluster at a host and a path.
pub open spec fn cluster_text(host: Option<Seq<char>>, path: Seq<char>) -> Seq<char> {
    match host {
        Some(host) => if is_hosted(host) {
            trimmed_start(path, '/')
        } else {
            without_proxy(first_label(host))
        },
        None => Seq::empty(),
    }
}

/// The name of the cluster at a host and a path.
pub fn cluster_name(host: Option<&str>, path: &str) -> (name: String)
    ensures
        name@ == cluster_text(
            match host {
                Some(host) => Some(host@),
                None => None,
            },
            path@,
        ),
{
    match host {
        Some(host) => {
            if strip_suffix(host, ".psdb.cloud").is_some() {
                proof {
                    assert(exists|rest: Seq<char>| host@ == rest + ".psdb.cloud"@);
                    let rest = choose|rest: Seq<char>| host@ == rest + ".psdb.cloud"@;
                    assert(host@.subrange(
                        host@.len() - ".psdb.cloud"@.len(),
                        host@.len() as int,
                    ) =~= ".psdb.cloud"@);
                }
                return trim_start_matches(path, '/').to_owned();
            }
            let label = match split_once(host, ".") {
                Some((label, _)) => label,
                None => host,
            };
            match strip_suffix(label, "-proxy") {
                Some(name) => {
                    assert(label@.subrange(label@.len() - "-proxy"@.len(), label@.len() as int)
                        =~= "-proxy"@);
                    assert(name@ =~= label@.take(label@.len() - "-proxy"@.len()));
                    name.to_owned()
                },
                None => label.to_owned(),
            }
        },
        None => String::new(),
    }
}

/// The name of the cluster that a URL leads to, for metrics: its path at the hosted service, the
/// first label of its host otherwise.
pub fn derive_cluster_name(url: &str) -> (name: String)
    ensures
        name@ == cluster_text(
            url_host(url@),
            match url_path(url@) {
                Some(path) => path,
                None => Seq::empty(),
            },
        ),
{
    let host = host_of(url);
    let path = match path_of(url) {
        Some(path) => path,
        None => String::new(),
    };
    match host {
        Some(host) => cluster_name(Some(host.as_str()), path.as_str()),
        None => cluster_name(None, path.as_str()),
    }
}

/// Whether a query turns encryption off.
pub open spec fn turns_ssl_off(query: Seq<(Seq<char>, Seq<char>)>) -> bool {
    query.contains(("require_ssl"@, "false"@))
}

/// Whether a query turns encryption off.
pub fn ssl_turned_off(query: &Vec<(String, String)>) -> (off: bool)
    ensures
        off == turns_ssl_off(pair_texts(query@)),
{
    let mut i: usize = 0;
    while i < query.len()
        invariant
            i <= query.len(),
            forall|k: int|
                0 <= k < i ==> (#[trigger] pair_texts(query@)[k]) != ("require_ssl"@, "false"@),
        decreases query.len() - i,
    {
        if same_text(query[i].0.as_str(), "require_ssl") && same_text(query[i].1.as_str(), "false") {
            assert(pair_texts(query@)[i as int] == ("require_ssl"@, "false"@));
            return true;
        }
        i = i + 1;
    }
    false
}

/// The certificate file that was configured does not exist.
#[derive(Debug)]
pub struct MissingCaFile {
    pub path: String,
}

impl MissingCaFile {
    pub open spec fn text(self) -> Seq<char> {
        "MYSQL_CA_FILE does not exist: "@ + self.path@
    }

    pub fn message(&self) -> (message: String)
        ensures
            message@ == self.text(),
    {
        let mut message = "MYSQL_CA_FILE does not exist: ".to_owned();
        message.append(self.path.as_str());
        message
    }
}

/// Whether connections are encrypted, by the path of the certificate file and the query of the URL.
pub open spec fn encrypts(
    ca_file_path: Seq<char>,
    query: Option<Seq<(Seq<char>, Seq<char>)>>,
) -> bool {
    &&& ca_file_path.len() > 0
    &&& query matches Some(query) ==> !turns_ssl_off(query)
}

/// Whether connections to a URL are encrypted with the certificates of a configured file: a file
/// that is named turns encryption on, unless the URL turns it off.
pub fn uses_ca_file(ca_file_path: &str, url: &str) -> (used: bool)
    ensures
        used == (ca_file_path@.len() > 0 && !(match url_query(url@) {
            Some(query) => turns_ssl_off(query),
            None => false,
        })),
        used == encrypts(ca_file_path@, url_query(url@)),
{
    if ca_file_path.is_empty() {
        return false;
    }
    match query_of(url) {
        Some(query) => !ssl_turned_off(&query),
        None => true,
    }
}

/// The configured certificate file, where it is used; the error is that it does not exist.
pub fn ca_file(ca_file_path: Option<&str>, url: &str, exists: bool) -> (file: Result<
    Option<String>,
    MissingCaFile,
>)
    ensures
        ({
            let used = ca_file_path is Some && ca_file_path->0@.len() > 0 && !(match url_query(
                url@,
            ) {
                Some(query) => turns_ssl_off(query),
                None => false,
            });
            match file {
                Ok(Some(path)) => used && exists && path@ == ca_file_path->0@,
                Ok(None) => !used,
                Err(missing) => used && !exists && missing.path@ == ca_file_path->0@,
            }
        }),
        file == Ok::<Option<String>, MissingCaFile>(None) <==> ca_file_path is None || !encrypts(
            ca_file_path->0@,
            url_query(url@),
        ),
        file is Err <==> ca_file_path is Some && encrypts(ca_file_path->0@, url_query(url@))
            && !exists,
{
    match ca_file_path {
        Some(path) => {
            if !uses_ca_file(path, url) {
                return Ok(None);
            }
            if !exists {
                return Err(MissingCaFile { path: path.to_owned() });
            }
            Ok(Some(path.to_owned()))
        },
        None => Ok(None),
    }
}

/// At the hosted service the cluster is what the path names, without slashes before it.
pub proof fn hosted_clusters_are_named_by_path(account: Seq<char>, path: Seq<char>)
    ensures
        cluster_text(Some(account + ".psdb.cloud"@), path) == trimmed_start(path, '/'),
        cluster_text(Some(account + ".psdb.cloud"@), seq!['/'] + path) == cluster_text(
            Some(account + ".psdb.cloud"@),
            path,
        ),
        path.len() > 0 && path[0] != '/' ==> cluster_text(Some(account + ".psdb.cloud"@), path)
            == path,
{
    let host = account + ".psdb.cloud"@;
    assert(host.subrange(host.len() - ".psdb.cloud"@.len(), host.len() as int)
        =~= ".psdb.cloud"@);
    assert((seq!['/'] + path).skip(1) =~= path);
}

/// At any other host the cluster is the first label, without the mark of a proxy; without a host
/// there is no name.
pub proof fn other_clusters_are_named_by_their_first_label(
    label: Seq<char>,
    domain: Seq<char>,
    path: Seq<char>,
)
    requires
        forall|i: int| 0 <= i < label.len() ==> #[trigger] label[i] != '.',
        !is_hosted(label + "."@ + domain),
        !is_hosted(label + "-proxy."@ + domain),
    ensures
        (forall|name: Seq<char>| #[trigger] (name + "-proxy"@) != label) ==> cluster_text(
            Some(label + "."@ + domain),
            path,
        ) == label,
        cluster_text(Some(label + "-proxy."@ + domain), path) == label,
        cluster_text(None, path) == Seq::<char>::empty(),
{
    reveal_strlit(".");
    reveal_strlit("-proxy");
    reveal_strlit("-proxy.");
    lemma_first_label(label, domain);
    let marked = label + "-proxy"@;
    assert forall|i: int| 0 <= i < marked.len() implies #[trigger] marked[i] != '.' by {
        if i < label.len() {
            assert(marked[i] == label[i]);
        }
    }
    lemma_first_label(marked, domain);
    assert(label + "-proxy."@ + domain =~= marked + "."@ + domain);
    assert(marked.subrange(marked.len() - "-proxy"@.len(), marked.len() as int) =~= "-proxy"@);
    assert(marked.take(marked.len() - "-proxy"@.len()) =~= label);
    if occurs_at(label, "-proxy"@, label.len() - "-proxy"@.len()) {
        let name = label.take(label.len() - "-proxy"@.len());
        assert(name + "-proxy"@ =~= label);
    }
}

proof fn lemma_first_label(label: Seq<char>, domain: Seq<char>)
    requires
        forall|i: int| 0 <= i < label.len() ==> #[trigger] label[i] != '.',
    ensures
        first_label(label + "."@ + domain) == label,
{
    reveal_strlit(".");
    let host = label + "."@ + domain;
    let at = label.len() as int;
    assert(host.subrange(at, at + 1) =~= "."@);
    assert(occurs_at(host, "."@, at));
    assert forall|earlier: int| earlier < at implies !occurs_at(host, "."@, earlier) by {
        if occurs_at(host, "."@, earlier) {
            assert(host.subrange(earlier, earlier + 1)[0] == host[earlier]);
            assert(host[earlier] == label[earlier]);
        }
    }
    crate::text::halves_at(host, "."@, at);
    assert(host.take(at) =~= label);
}

/// A certificate file that is named turns encryption on. The only entry of a query that turns it off
/// says so in full, and does so wherever it stands and whatever else is there.
pub proof fn one_entry_turns_encryption_off(
    ca_file_path: Seq<char>,
    before: Seq<(Seq<char>, Seq<char>)>,
    name: Seq<char>,
    value: Seq<char>,
    after: Seq<(Seq<char>, Seq<char>)>,
)
    ensures
        encrypts(ca_file_path, None) <==> ca_file_path.len() > 0,
        encrypts(ca_file_path, Some(Seq::empty())) <==> ca_file_path.len() > 0,
        encrypts(ca_file_path, Some(before + seq![(name, value)] + after)) <==> {
            &&& encrypts(ca_file_path, Some(before))
            &&& encrypts(ca_file_path, Some(after))
            &&& !(name == "require_ssl"@ && value == "false"@)
        },
{
    let off = ("require_ssl"@, "false"@);
    let query = before + seq![(name, value)] + after;
    let at = before.len() as int;
    assert(query[at] == (name, value));
    if before.contains(off) {
        let i = choose|i: int| 0 <= i < before.len() && before[i] == off;
        assert(query[i] == off);
    }
    if after.contains(off) {
        let i = choose|i: int| 0 <= i < after.len() && after[i] == off;
        assert(query[at + 1 + i] == off);
    }
    if query.contains(off) {
        let i = choose|i: int| 0 <= i < query.len() && query[i] == off;
        if i < at {
            assert(before[i] == off);
        } else if i > at {
            assert(after[i - at - 1] == off);
        }
    }
}

} // verus!
