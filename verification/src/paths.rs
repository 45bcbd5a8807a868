//! Where the program keeps its files.
use crate::text::owned;
use vstd::prelude::*;

verus! {

/// Whether every machine reads a path alike: it holds no backslash and no colon, which stand between
/// components and behind drives on some, and does not begin with two separators.
pub open spec fn is_plain(path: Seq<char>) -> bool {
    &&& forall|i: int| 0 <= i < path.len() ==> #[trigger] path[i] != '\\' && path[i] != ':'
    &&& !(path.len() >= 2 && path[0] == '/' && path[1] == '/')
}

/// A place for a file: a path, and the parts that are joined to it one after another.
#[derive(Debug)]
pub struct Location {
    pub base: String,
    pub parts: Vec<String>,
}

#[verifier::ext_equal]
pub struct LocationModel {
    pub base: Seq<char>,
    pub parts: Seq<Seq<char>>,
}

impl DeepView for Location {
    type V = LocationModel;

    open spec fn deep_view(&self) -> LocationModel {
        LocationModel { base: self.base@, parts: self.parts.deep_view() }
    }
}

/// A path below another, with this character between them where none stands there.
pub open spec fn below(base: Seq<char>, rest: Seq<char>, separator: char) -> Seq<char> {
    if rest.len() > 0 && rest[0] == '/' {
        rest
    } else if base.len() == 0 || base.last() == '/' {
        base + rest
    } else {
        base.push(separator) + rest
    }
}

/// Whether a path begins with two separators of some machine.
pub open spec fn begins_with_two(path: Seq<char>) -> bool {
    path.len() >= 2 && (path[0] == '/' || path[0] == '\\') && (path[1] == '/' || path[1] == '\\')
}

/// Whether joining one path to another may give this on some machine.
pub open spec fn may_join(base: Seq<char>, rest: Seq<char>, joined: Seq<char>) -> bool {
    if !is_plain(rest) {
        true
    } else if is_plain(base) {
        joined == below(base, rest, '/') || joined == below(base, rest, '\\')
    } else if begins_with_two(base) || rest.len() > 0 && rest[0] == '/' {
        true
    } else {
        joined == base + rest || joined == base.push('/') + rest || joined == base.push('\\') + rest
    }
}

/// `std::path::Path::join` joins one path to another. What it puts between them, and what makes a
/// path absolute, depends on the machine: stated is what holds on all.
#[verifier::external_body]
fn join(base: &str, rest: &str) -> (r: String)
    ensures
        may_join(base@, rest@, r@),
{
    std::path::Path::new(base).join(rest).display().to_string()
}

impl LocationModel {
    /// The place of a path as it is.
    pub open spec fn at(path: Seq<char>) -> LocationModel {
        LocationModel { base: path, parts: Seq::empty() }
    }

    /// A place below this one.
    pub open spec fn then_part(self, part: Seq<char>) -> LocationModel {
        LocationModel { base: self.base, parts: self.parts.push(part) }
    }

    /// Whether the place may have this path on some machine.
    pub open spec fn may_be(self, path: Seq<char>) -> bool
        decreases self.parts.len(),
    {
        if self.parts.len() == 0 {
            path == self.base
        } else {
            exists|above: Seq<char>|
                (LocationModel { base: self.base, parts: self.parts.drop_last() }).may_be(above)
                    && #[trigger] may_join(above, self.parts.last(), path)
        }
    }
}

impl Location {
    /// The place of a path as it is.
    pub fn at(path: String) -> (r: Self)
        ensures
            r.deep_view() == LocationModel::at(path@),
    {
        let r = Location { base: path, parts: Vec::new() };
        assert(r.parts.deep_view() =~= Seq::empty());
        r
    }

    /// A place below this one.
    pub fn with_part(self, part: &str) -> (r: Self)
        ensures
            r.deep_view() == self.deep_view().then_part(part@),
    {
        let ghost before = self.parts.deep_view();
        let mut parts = self.parts;
        parts.push(owned(part));
        assert(parts.deep_view() =~= before.push(part@));
        Location { base: self.base, parts }
    }

    /// The path of the place.
    pub fn path(&self) -> (r: String)
        ensures
            self.deep_view().may_be(r@),
    {
        let ghost base = self.base@;
        let ghost all = self.parts.deep_view();
        let mut path = self.base.clone();
        let mut i: usize = 0;
        assert(all.take(0) =~= Seq::empty());
        while i < self.parts.len()
            invariant
                base == self.base@,
                all == self.parts.deep_view(),
                i <= self.parts.len(),
                (LocationModel { base, parts: all.take(i as int) }).may_be(path@),
            decreases self.parts.len() - i,
        {
            let ghost above = path@;
            assert(all.take(i + 1).drop_last() =~= all.take(i as int));
            assert(all[i as int] == self.parts@[i as int]@);
            path = join(path.as_str(), self.parts[i].as_str());
            assert(may_join(above, all.take(i + 1).last(), path@));
            i += 1;
        }
        assert(all.take(i as int) =~= all);
        path
    }
}

/// The file that the configuration is read from.
pub open spec fn config_place(home: Seq<char>) -> LocationModel {
    LocationModel::at(home).then_part(".config"@).then_part("deepcode"@).then_part("config.toml"@)
}

pub fn default_config_path(home: &str) -> (r: Location)
    ensures
        r.deep_view() == config_place(home@),
{
    Location::at(owned(home)).with_part(".config").with_part("deepcode").with_part("config.toml")
}

/// The log file: the one that is named, or one in the state directory.
pub open spec fn log_place(
    log_file: Option<Seq<char>>,
    state_dir: Option<Seq<char>>,
    home: Seq<char>,
) -> LocationModel {
    match log_file {
        Some(path) => LocationModel::at(path),
        None => {
            let state = match state_dir {
                Some(path) => LocationModel::at(path),
                None => LocationModel::at(home).then_part(".local/state/deepcode"@),
            };
            state.then_part("logs"@).then_part("deepcode.log"@)
        },
    }
}

pub fn default_log_path(log_file: Option<String>, state_dir: Option<String>, home: &str) -> (r:
    Location)
    ensures
        r.deep_view() == log_place(log_file.deep_view(), state_dir.deep_view(), home@),
{
    match log_file {
        Some(path) => Location::at(path),
        None => {
            let state = match state_dir {
                Some(path) => Location::at(path),
                None => Location::at(owned(home)).with_part(".local/state/deepcode"),
            };
            state.with_part("logs").with_part("deepcode.log")
        },
    }
}

/// The directory for data: the one that is named, or one in the home directory.
pub open spec fn data_place(data_dir: Option<Seq<char>>, home: Seq<char>) -> LocationModel {
    match data_dir {
        Some(path) => LocationModel::at(path),
        None => LocationModel::at(home).then_part(".local/share/deepcode"@),
    }
}

pub fn data_root(data_dir: Option<String>, home: &str) -> (r: Location)
    ensures
        r.deep_view() == data_place(data_dir.deep_view(), home@),
{
    match data_dir {
        Some(path) => Location::at(path),
        None => Location::at(owned(home)).with_part(".local/share/deepcode"),
    }
}

/// A path without separators and dots in front of its first component.
pub open spec fn without_empty_start(path: Seq<char>) -> Seq<char>
    decreases path.len(),
{
    if path.len() > 0 && (path[0] == '/' || path[0] == '.' && (path.len() == 1 || path[1] == '/')) {
        without_empty_start(path.drop_first())
    } else {
        path
    }
}

/// A path without separators and dots behind its last component.
pub open spec fn without_empty_end(path: Seq<char>) -> Seq<char>
    decreases path.len(),
{
    if path.len() > 0 && (path.last() == '/' || path.last() == '.' && (path.len() == 1
        || path[path.len() - 2] == '/')) {
        without_empty_end(path.drop_last())
    } else {
        path
    }
}

/// Whether a path in which `/` alone separates the components begins in the home directory.
pub open spec fn in_home(path: Seq<char>) -> bool {
    path.len() > 0 && path[0] == '~' && (path.len() == 1 || path[1] == '/')
}

/// What a path in which `/` alone separates the components names in the home directory.
pub open spec fn under_home(path: Seq<char>) -> Option<Seq<char>> {
    if in_home(path) {
        Some(without_empty_end(without_empty_start(path.skip(1))))
    } else {
        None
    }
}

/// Whether a path may name this in the home directory on some machine. Where the path is plain,
/// every machine finds the same; elsewhere the path at least begins with a tilde.
pub open spec fn may_be_under_home(path: Seq<char>, rest: Option<Seq<char>>) -> bool {
    if is_plain(path) {
        rest == under_home(path)
    } else {
        rest is Some ==> path.len() > 0 && path[0] == '~'
    }
}

/// `std::path::Path::strip_prefix` gives what follows a first component `~`. What separates
/// components depends on the machine; of a path that all machines read alike the rest is stated, of
/// any other only that the path begins with a tilde.
#[verifier::external_body]
fn behind_tilde(path: &str) -> (r: Option<String>)
    ensures
        may_be_under_home(path@, r.deep_view()),
{
    std::path::Path::new(path).strip_prefix("~").ok().map(|rest| rest.display().to_string())
}

/// A path with the home directory in place of a tilde, given what it names there.
pub open spec fn expanded(home: Seq<char>, path: Seq<char>, rest: Option<Seq<char>>) -> LocationModel {
    match rest {
        Some(rest) => LocationModel::at(home).then_part(rest),
        None => LocationModel::at(path),
    }
}

/// Whether a path may stand for this place on some machine.
pub open spec fn may_expand(home: Seq<char>, path: Seq<char>, place: LocationModel) -> bool {
    exists|rest: Option<Seq<char>>|
        #[trigger] may_be_under_home(path, rest) && place == expanded(home, path, rest)
}

/// A path with the home directory in place of a tilde, given what it names there.
pub fn expand_with(home: &str, path: &str, rest: Option<String>) -> (r: Location)
    ensures
        r.deep_view() == expanded(home@, path@, rest.deep_view()),
{
    match rest {
        Some(rest) => Location::at(owned(home)).with_part(rest.as_str()),
        None => Location::at(owned(path)),
    }
}

/// A path with the home directory in place of a tilde.
pub fn expand_home(home: &str, path: &str) -> (r: Location)
    ensures
        may_expand(home@, path@, r.deep_view()),
{
    let rest = behind_tilde(path);
    assert(may_be_under_home(path@, rest.deep_view()));
    expand_with(home, path, rest)
}

/// Whether some paths, one by one, may stand for these places on some machine.
pub open spec fn may_expand_all(
    home: Seq<char>,
    paths: Seq<Seq<char>>,
    places: Seq<LocationModel>,
) -> bool {
    &&& places.len() == paths.len()
    &&& forall|i: int| 0 <= i < paths.len() ==> may_expand(home, paths[i], #[trigger] places[i])
}

fn expand_all(home: &str, paths: &Vec<String>) -> (r: Vec<Location>)
    ensures
        may_expand_all(home@, paths.deep_view(), r.deep_view()),
{
    let ghost all = paths.deep_view();
    let mut r: Vec<Location> = Vec::new();
    let mut i: usize = 0;
    while i < paths.len()
        invariant
            all == paths.deep_view(),
            i <= paths.len(),
            r.deep_view().len() == i,
            forall|j: int|
                0 <= j < i ==> may_expand(home@, all[j], #[trigger] r.deep_view()[j]),
        decreases paths.len() - i,
    {
        let ghost before = r.deep_view();
        let place = expand_home(home, paths[i].as_str());
        let ghost added = place.deep_view();
        assert(all[i as int] == paths@[i as int]@);
        r.push(place);
        assert(r.deep_view() =~= before.push(added));
        i += 1;
    }
    r
}

/// Which policies the permission system goes by.
#[derive(Debug)]
pub struct PolicyPaths {
    pub default_permissions: String,
    pub policy_files: Vec<Location>,
    pub write_policy_file: Location,
}

/// The policies that are configured, or else those that are the default.
pub fn permissions_config(
    home: &str,
    default_permissions: Option<String>,
    policy_files: &Vec<String>,
    default_policy_files: &Vec<String>,
    write_policy_file: Option<String>,
    default_write_policy_file: String,
) -> (r: PolicyPaths)
    ensures
        r.default_permissions@ == match default_permissions {
            Some(name) => name@,
            None => ":workspace"@,
        },
        may_expand_all(
            home@,
            if policy_files.len() == 0 {
                default_policy_files.deep_view()
            } else {
                policy_files.deep_view()
            },
            r.policy_files.deep_view(),
        ),
        match write_policy_file {
            Some(path) => may_expand(home@, path@, r.write_policy_file.deep_view()),
            None => r.write_policy_file.deep_view() == LocationModel::at(
                default_write_policy_file@,
            ),
        },
{
    let policy_files = if policy_files.len() == 0 {
        expand_all(home, default_policy_files)
    } else {
        expand_all(home, policy_files)
    };
    let write_policy_file = match write_policy_file {
        Some(path) => expand_home(home, path.as_str()),
        None => Location::at(default_write_policy_file),
    };
    let default_permissions = match default_permissions {
        Some(name) => name,
        None => owned(":workspace"),
    };
    PolicyPaths { default_permissions, policy_files, write_policy_file }
}

/// Only a path that begins with a tilde is changed, and what comes of it lies in the home directory.
pub proof fn law_expansion_is_in_the_home_directory(
    home: Seq<char>,
    path: Seq<char>,
    place: LocationModel,
)
    requires
        may_expand(home, path, place),
    ensures
        place == LocationModel::at(path) || (path.len() > 0 && path[0] == '~' && place.base == home
            && place.parts.len() == 1),
{
}

/// A plain path stands for the same place on every machine.
pub proof fn law_plain_paths_are_expanded_alike(
    home: Seq<char>,
    path: Seq<char>,
    place: LocationModel,
)
    requires
        is_plain(path),
    ensures
        may_expand(home, path, place) <==> place == expanded(home, path, under_home(path)),
{
    assert(may_be_under_home(path, under_home(path)));
}

/// What is joined to a plain path below the root, and is plain itself, comes behind it.
pub proof fn law_joined_paths_are_below(base: Seq<char>, rest: Seq<char>, joined: Seq<char>)
    requires
        may_join(base, rest, joined),
        is_plain(rest),
        !(rest.len() > 0 && rest[0] == '/'),
        !begins_with_two(base),
    ensures
        base.is_prefix_of(joined),
{
}

} // verus!
