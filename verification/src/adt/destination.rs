//! Destinations: a named SAP system endpoint with its credentials.
use vstd::prelude::*;
use crate::adt::error::AdtError;
use crate::text::{concat2, concat3, first_index, lemma_first_at, lemma_first_from, owned};

verus! {

/// How a destination authenticates.
#[derive(Clone, PartialEq, Eq)]
pub enum AdtAuth {
    /// HTTP Basic.
    Basic { user: String, password: String },
    /// A bearer token.
    Bearer { token: String },
    /// An SAP BTP service key file, read by the HTTP client.
    ServiceKey { path: String },
    /// Mutual TLS from PEM files.
    Certificate { cert_path: String, key_path: String },
    /// No network at all.
    Mock,
}

/// One SAP system endpoint.
#[derive(Clone)]
pub struct AdtDestination {
    /// Logical name; the name a destination is loaded under always wins.
    pub name: String,
    /// e.g. `https://s4hana.example.com:44300`
    pub base_url: String,
    /// SAP client number, e.g. `100`.
    pub client: String,
    /// Logon language, e.g. `EN`.
    pub language: String,
    pub auth: AdtAuth,
}

/// The logon language a destination file gets when it names none.
pub fn default_language() -> (r: String)
    ensures
        r@ == "EN"@,
{
    String::from_str("EN")
}

/// The secret-free label of an authentication method.
pub open spec fn auth_label(a: AdtAuth) -> Seq<char> {
    match a {
        AdtAuth::Basic { .. } => "basic"@,
        AdtAuth::Bearer { .. } => "bearer"@,
        AdtAuth::ServiceKey { .. } => "service_key"@,
        AdtAuth::Certificate { .. } => "certificate"@,
        AdtAuth::Mock => "mock"@,
    }
}

/// The label of `a`, holding none of its secrets.
pub fn auth_type_label(a: &AdtAuth) -> (r: &'static str)
    ensures
        r@ == auth_label(*a),
{
    match a {
        AdtAuth::Basic { .. } => "basic",
        AdtAuth::Bearer { .. } => "bearer",
        AdtAuth::ServiceKey { .. } => "service_key",
        AdtAuth::Certificate { .. } => "certificate",
        AdtAuth::Mock => "mock",
    }
}

impl AdtAuth {
    /// Secret-free label for logs.
    pub fn label(&self) -> (r: &'static str)
        ensures
            r@ == auth_label(*self),
    {
        auth_type_label(self)
    }
}

/// What a destination may show in logs: everything but the credentials.
#[derive(Debug, Clone)]
pub struct RedactedDestination {
    pub name: String,
    pub base_url: String,
    pub client: String,
    pub language: String,
    pub auth_type: String,
}

/// `file` appended to the directory `base` as `Path::join` does it: an absolute
/// `file` replaces `base`, and a separator is added only where `base` lacks one.
pub open spec fn path_join(base: Seq<char>, file: Seq<char>) -> Seq<char> {
    if file.len() > 0 && file[0] == '/' {
        file
    } else if base.len() == 0 || base.last() == '/' {
        base + file
    } else {
        base + "/"@ + file
    }
}

/// Joins `file` onto `base` (see `path_join`).
pub fn join_path(base: &str, file: &str) -> (r: String)
    ensures
        r@ == path_join(base@, file@),
{
    let bl = base.unicode_len();
    if file.unicode_len() > 0 && file.get_char(0) == '/' {
        owned(file)
    } else if bl == 0 || base.get_char(bl - 1) == '/' {
        concat2(base, file)
    } else {
        concat3(base, "/", file)
    }
}

/// The candidate files of destination `name`, highest priority first: the
/// override directory, the project-local directory, then the configuration home.
pub open spec fn search_paths(
    name: Seq<char>,
    dir_override: Option<Seq<char>>,
    config_home: Option<Seq<char>>,
) -> Seq<Seq<char>> {
    let file = name + ".toml"@;
    let first: Seq<Seq<char>> = match dir_override {
        Some(d) => seq![path_join(d, file)],
        None => Seq::empty(),
    };
    let last: Seq<Seq<char>> = match config_home {
        Some(h) => seq![path_join(path_join(h, "sap-automate/destinations"@), file)],
        None => Seq::empty(),
    };
    first + seq![path_join("./.sap-automate/destinations"@, file)] + last
}

/// The strings of a vector of `String`.
pub open spec fn string_views(v: Seq<String>) -> Seq<Seq<char>> {
    v.map_values(|s: String| s@)
}

impl AdtDestination {
    /// A destination that needs no network.
    pub fn mock(name: &str) -> (d: AdtDestination)
        ensures
            d.name@ == name@,
            d.base_url@ == "https://mock.sap.example"@,
            d.client@ == "100"@,
            d.language@ == "EN"@,
            d.auth == AdtAuth::Mock,
    {
        AdtDestination {
            name: owned(name),
            base_url: String::from_str("https://mock.sap.example"),
            client: String::from_str("100"),
            language: String::from_str("EN"),
            auth: AdtAuth::Mock,
        }
    }

    /// The destination without its credentials, for logs and listings.
    pub fn redacted(&self) -> (r: RedactedDestination)
        ensures
            r.name@ == self.name@,
            r.base_url@ == self.base_url@,
            r.client@ == self.client@,
            r.language@ == self.language@,
            r.auth_type@ == auth_label(self.auth),
    {
        RedactedDestination {
            name: owned(self.name.as_str()),
            base_url: owned(self.base_url.as_str()),
            client: owned(self.client.as_str()),
            language: owned(self.language.as_str()),
            auth_type: owned(auth_type_label(&self.auth)),
        }
    }

    /// Candidate files for destination `name` given the override directory and the
    /// configuration home (see `search_paths`).
    pub fn build_search_paths(
        name: &str,
        dir_override: Option<&str>,
        config_home: Option<&str>,
    ) -> (r: Vec<String>)
        ensures
            string_views(r@) == search_paths(
                name@,
                match dir_override { Some(d) => Some(d@), None => None },
                match config_home { Some(h) => Some(h@), None => None },
            ),
    {
        let file = concat2(name, ".toml");
        let mut paths: Vec<String> = Vec::new();
        match dir_override {
            Some(d) => {
                paths.push(join_path(d, file.as_str()));
            },
            None => {},
        }
        paths.push(join_path("./.sap-automate/destinations", file.as_str()));
        match config_home {
            Some(h) => {
                let base = join_path(h, "sap-automate/destinations");
                paths.push(join_path(base.as_str(), file.as_str()));
            },
            None => {},
        }
        proof {
            let dv = match dir_override { Some(d) => Some(d@), None => None };
            let hv = match config_home { Some(h) => Some(h@), None => None };
            assert(string_views(paths@) =~= search_paths(name@, dv, hv));
        }
        paths
    }

    /// The destination parsed from a file, carrying the name it was loaded under.
    pub fn named(self, name: &str) -> (d: AdtDestination)
        ensures
            d.name@ == name@,
            d.base_url == self.base_url,
            d.client == self.client,
            d.language == self.language,
            d.auth == self.auth,
    {
        let mut d = self;
        d.name = owned(name);
        d
    }

    /// Which candidate file to read, given whether each exists: the first that does
    /// (later ones are not read), or none.
    pub fn first_existing(exists: &Vec<bool>) -> (r: Option<usize>)
        ensures
            match r {
                Some(i) => i < exists@.len() && exists@[i as int] && forall|j: int| 0 <= j < i ==> !exists@[j],
                None => forall|j: int| 0 <= j < exists@.len() ==> !exists@[j],
            },
    {
        let mut i: usize = 0;
        while i < exists.len()
            invariant
                i <= exists@.len(),
                forall|j: int| 0 <= j < i ==> !exists@[j],
            decreases exists@.len() - i,
        {
            if exists[i] {
                return Some(i);
            }
            i = i + 1;
        }
        None
    }

    /// Loads destination `name` given what was found on its search path: the parsed
    /// contents of the first file that exists, or nothing when none does.
    pub fn load(name: &str, first_found: Option<Result<AdtDestination, AdtError>>) -> (r: Result<
        AdtDestination,
        AdtError,
    >)
        ensures
            match first_found {
                None => r matches Err(AdtError::NotFound { kind, name: n })
                    && kind@ == "Destination"@ && n@ == name@,
                Some(Err(e)) => r == Err::<AdtDestination, AdtError>(e),
                Some(Ok(found)) => r matches Ok(d) && d.name@ == name@ && d.base_url == found.base_url
                    && d.client == found.client && d.language == found.language
                    && d.auth == found.auth,
            },
    {
        match first_found {
            None => Err(AdtError::NotFound { kind: String::from_str("Destination"), name: owned(name) }),
            Some(Err(e)) => Err(e),
            Some(Ok(d)) => Ok(d.named(name)),
        }
    }

    /// Loads destination `name` from its candidate files, given whether each exists
    /// and how to read the `i`-th: only the first existing candidate is read, a
    /// failure there is the answer (no later candidate is tried), and a loaded
    /// destination keeps the requested name; with no candidate existing it is
    /// `NotFound`.
    pub fn load_first<F: Fn(usize) -> Result<AdtDestination, AdtError>>(
        name: &str,
        exists: &Vec<bool>,
        read: F,
    ) -> (r: Result<AdtDestination, AdtError>)
        requires
            forall|i: usize| i < exists@.len() ==> read.requires((i,)),
        ensures
            ({
                let i = first_true(exists@);
                if i < 0 {
                    r matches Err(AdtError::NotFound { kind, name: n }) && kind@ == "Destination"@ && n@ == name@
                } else {
                    exists|x: Result<AdtDestination, AdtError>| #[trigger] read.ensures((i as usize,), x)
                        && loaded_as(name@, x, r)
                }
            }),
    {
        let ghost f = holds();
        match Self::first_existing(exists) {
            None => {
                proof {
                    lemma_first_from(exists@, f, 0);
                    assert(first_true(exists@) == -1);
                }
                Self::load(name, None)
            },
            Some(i) => {
                let x = read(i);
                proof {
                    assert forall|m: int| 0 <= m < i implies !f(#[trigger] exists@[m]) by {}
                    lemma_first_at(exists@, f, 0, i as int);
                }
                let r = Self::load(name, Some(x));
                assert(read.ensures((first_true(exists@) as usize,), x));
                assert(loaded_as(name@, x, r));
                r
            },
        }
    }

    /// The error for a destination file that could not be read.
    pub fn read_error(path: &str, detail: &str) -> (e: AdtError)
        ensures
            e matches AdtError::Internal(s) && s@ == "read destination "@ + path@ + ": "@ + detail@,
    {
        let a = concat3("read destination ", path, ": ");
        AdtError::Internal(concat2(a.as_str(), detail))
    }

    /// The error for a destination file that is not valid TOML.  It names the file
    /// only: a parser's message would echo the offending line, which may hold a secret.
    pub fn invalid_toml_error(path: &str) -> (e: AdtError)
        ensures
            e matches AdtError::Internal(s) && s@ == "destination "@ + path@
                + " is not valid TOML (syntax error; detail withheld to avoid logging credential lines)"@,
    {
        AdtError::Internal(concat3(
            "destination ",
            path,
            " is not valid TOML (syntax error; detail withheld to avoid logging credential lines)",
        ))
    }
}

/// The position of the first `true`, or -1.
pub open spec fn first_true(s: Seq<bool>) -> int {
    first_index(s, holds())
}

/// The test that a flag is set.
pub open spec fn holds() -> spec_fn(bool) -> bool {
    |b: bool| b
}

/// `r` is destination `name` loaded from what reading its file gave (`found`): a
/// failure is passed on, a destination keeps its settings under the requested name.
pub open spec fn loaded_as(
    name: Seq<char>,
    found: Result<AdtDestination, AdtError>,
    r: Result<AdtDestination, AdtError>,
) -> bool {
    match found {
        Err(e) => r == Err::<AdtDestination, AdtError>(e),
        Ok(d0) => r matches Ok(d) && d.name@ == name && d.base_url == d0.base_url && d.client == d0.client
            && d.language == d0.language && d.auth == d0.auth,
    }
}

} // verus!
