//! The resolution mode state: the module folder name and the alias mapping,
//! its construction paths, and the module-folder predicate.
use vstd::prelude::*;
use vstd::string::StrSliceExecFns;
use vstd::string::StringExecFns;

use crate::aliases::AliasMap;
use crate::aliases::pair_views;
use crate::aliases::pairs_map;
use crate::errors::ConfigError;
use crate::json::doc_field_names;
use crate::json::doc_map_field;
use crate::json::doc_string_field;
use crate::json::string_map_of;
use crate::json::string_of;
use crate::json::parse_object;
use crate::json::value_as_string;
use crate::json::value_as_string_map;
use crate::nodes::FunctionCall;
use crate::nodes::is_path_require;
use crate::nodes::literal_text;
use crate::nodes::match_path_require_call;
use crate::text::find_last;
use crate::text::leaf_of;
use crate::text::stem_of;
use crate::text::text_eq;
use crate::text::trim_trailing_slashes;

verus! {

/// The two field names an embedding configuration document may hold.
pub open spec fn recognized_fields() -> Set<Seq<char>> {
    set!["module_folder_name"@, "sources"@]
}

/// Whether a text is an acceptable embedding configuration document: a
/// well-formed object, every field recognized, and each present field
/// holding a value of its shape — a string folder name, an alias mapping.
pub open spec fn valid_mode_document(text: Seq<char>) -> bool {
    &&& doc_field_names(text) is Some
    &&& doc_field_names(text).unwrap().subset_of(recognized_fields())
    &&& (doc_field_names(text).unwrap().contains("module_folder_name"@) ==> doc_string_field(
        text,
        "module_folder_name"@,
    ) is Some)
    &&& (doc_field_names(text).unwrap().contains("sources"@) ==> doc_map_field(
        text,
        "sources"@,
    ) is Some)
}

/// An alias key as the mapping holds it: the name behind the marker.
pub open spec fn decorate(name: Seq<char>) -> Seq<char> {
    seq!['@'] + name
}

/// Whether `result` is `base` with every alias of `add` written over it
/// under its decorated key — the later load winning.
pub open spec fn merge_spec(
    base: Map<Seq<char>, Seq<char>>,
    add: Map<Seq<char>, Seq<char>>,
    result: Map<Seq<char>, Seq<char>>,
) -> bool {
    &&& forall|name: Seq<char>|
        add.contains_key(name) ==> result.contains_key(#[trigger] decorate(name))
            && result[decorate(name)] == add[name]
    &&& forall|k: Seq<char>| #![trigger result.contains_key(k)]
        result.contains_key(k) && !(k.len() >= 1 && k[0] == '@' && add.contains_key(
            k.skip(1),
        )) ==> base.contains_key(k) && result[k] == base[k]
    &&& forall|k: Seq<char>| #![trigger base.contains_key(k)]
        base.contains_key(k) && !(k.len() >= 1 && k[0] == '@' && add.contains_key(k.skip(1)))
            ==> result.contains_key(k)
}

/// Law: after a merge, a convention alias overrides an earlier binding of
/// the same decorated key — the mapping holds the later value.
pub proof fn lemma_merge_last_wins(
    base: Map<Seq<char>, Seq<char>>,
    add: Map<Seq<char>, Seq<char>>,
    result: Map<Seq<char>, Seq<char>>,
    name: Seq<char>,
)
    requires
        merge_spec(base, add, result),
        add.contains_key(name),
    ensures
        result.contains_key(decorate(name)),
        result[decorate(name)] == add[name],
{
}

pub proof fn lemma_decorate_injective(a: Seq<char>, b: Seq<char>)
    ensures
        decorate(a) == decorate(b) ==> a == b,
{
    if decorate(a) == decorate(b) {
        assert(decorate(a).skip(1) =~= a);
        assert(decorate(b).skip(1) =~= b);
    }
}

/// Writes every parsed `(name, path)` pair into `sources` under the
/// decorated key, overwriting prior entries — last loaded wins.
pub fn merge_aliases(sources: &mut AliasMap, parsed: &Vec<(String, String)>)
    requires
        old(sources).wf(),
    ensures
        final(sources).wf(),
        merge_spec(old(sources)@, pairs_map(pair_views(parsed@)), final(sources)@),
{
    let n: usize = parsed.len();
    let mut i: usize = 0;
    while i < n
        invariant
            0 <= i <= n,
            n == parsed@.len(),
            sources.wf(),
            merge_spec(old(sources)@, pairs_map(pair_views(parsed@.take(i as int))), sources@),
        decreases n - i,
    {
        let ghost before = sources@;
        let ghost prefix = pairs_map(pair_views(parsed@.take(i as int)));
        let key = String::from_str("@").concat(parsed[i].0.as_str());
        let value = parsed[i].1.clone();
        let ghost dkey = key@;
        let ghost dval = value@;
        proof {
            reveal_strlit("@");
            assert("@"@ =~= seq!['@']);
            assert(dkey == decorate(parsed@[i as int].0@));
            assert(dval == parsed@[i as int].1@);
        }
        sources.insert(key, value);
        proof {
            assert(sources@ == before.insert(decorate(parsed@[i as int].0@), dval));
            let t = parsed@.take(i + 1);
            assert(pair_views(t).drop_last() =~= pair_views(parsed@.take(i as int)));
            assert(pair_views(t).last() == (parsed@[i as int].0@, parsed@[i as int].1@));
            let next = pairs_map(pair_views(t));
            assert(next == prefix.insert(parsed@[i as int].0@, parsed@[i as int].1@));
            assert forall|name: Seq<char>| next.contains_key(name) implies sources@.contains_key(
                #[trigger] decorate(name),
            ) && sources@[decorate(name)] == next[name] by {
                lemma_decorate_injective(name, parsed@[i as int].0@);
            }
            assert forall|k: Seq<char>| #![trigger sources@.contains_key(k)]
                sources@.contains_key(k) && !(k.len() >= 1 && k[0] == '@'
                    && next.contains_key(k.skip(1))) implies old(sources)@.contains_key(k)
                && sources@[k] == old(sources)@[k] by {
                let dk = decorate(parsed@[i as int].0@);
                assert(dk.len() >= 1 && dk[0] == '@');
                assert(dk.skip(1) =~= parsed@[i as int].0@);
                assert(next.contains_key(dk.skip(1)));
                assert(k != dk);
                assert(!(k.len() >= 1 && k[0] == '@' && prefix.contains_key(k.skip(1))));
                assert(before.contains_key(k));
                assert(sources@[k] == before[k]);
            }
            assert forall|k: Seq<char>| #![trigger old(sources)@.contains_key(k)]
                old(sources)@.contains_key(k) && !(k.len() >= 1 && k[0] == '@'
                    && next.contains_key(k.skip(1))) implies sources@.contains_key(k) by {
                assert(!(k.len() >= 1 && k[0] == '@' && prefix.contains_key(k.skip(1))));
                assert(before.contains_key(k));
            }
            assert(merge_spec(old(sources)@, pairs_map(pair_views(parsed@.take(i + 1))), sources@));
        }
        i = i + 1;
    }
    proof {
        assert(parsed@.take(n as int) =~= parsed@);
    }
}

/// Whether a path plays the role of a directory's index file under the
/// folder name `name`: its final component, whole or with the trailing
/// extension stripped, equals `name`. The dot components `.` and `..` name
/// no file and never match.
pub open spec fn spec_is_module_folder(name: Seq<char>, path: Seq<char>) -> bool {
    &&& leaf_of(trim_trailing_slashes(path)) != seq!['.']
    &&& leaf_of(trim_trailing_slashes(path)) != seq!['.', '.']
    &&& (leaf_of(trim_trailing_slashes(path)) == name || stem_of(
        leaf_of(trim_trailing_slashes(path)),
    ) == name)
}

/// The resolution mode state: the module folder name and the merged alias
/// mapping. Logically immutable once constructed.
pub struct PathRequireMode {
    module_folder_name: String,
    sources: AliasMap,
}

impl PathRequireMode {
    /// The alias mapping holds pairwise distinct keys.
    pub closed spec fn wf(&self) -> bool {
        self.sources.wf()
    }

    /// The configured module folder name.
    pub closed spec fn spec_module_folder_name(&self) -> Seq<char> {
        self.module_folder_name@
    }

    /// The alias mapping.
    pub closed spec fn spec_sources(&self) -> Map<Seq<char>, Seq<char>> {
        self.sources@
    }

    /// A mode with the given module folder name; the alias mapping is always
    /// re-derived from the convention document, never taken from the caller.
    pub fn new(module_folder_name: &str, convention: Option<&str>) -> (r: Self)
        ensures
            r.wf(),
            r.spec_module_folder_name() == module_folder_name@,
            convention is None ==> r.spec_sources() == Map::<Seq<char>, Seq<char>>::empty(),
            convention matches Some(t) ==> (match doc_map_field(t@, "aliases"@) {
                Some(am) => merge_spec(
                    Map::<Seq<char>, Seq<char>>::empty(),
                    am,
                    r.spec_sources(),
                ),
                None => r.spec_sources() == Map::<Seq<char>, Seq<char>>::empty(),
            }),
            forall|k: Seq<char>|
                #[trigger] r.spec_sources().contains_key(k) ==> k.len() >= 1 && k[0] == '@',
    {
        let sources = default_sources(convention);
        let ghost sv = sources@;
        let r = PathRequireMode { module_folder_name: String::from_str(module_folder_name), sources };
        proof {
            assert(r.spec_sources() == sv);
            assert forall|k: Seq<char>| #[trigger] r.spec_sources().contains_key(k) implies k.len()
                >= 1 && k[0] == '@' by {
                assert(sv.contains_key(k));
            }
        }
        r
    }

    /// A mode assembled from an already-merged alias mapping.
    pub fn from_parts(module_folder_name: String, sources: AliasMap) -> (r: Self)
        requires
            sources.wf(),
        ensures
            r.wf(),
            r.spec_module_folder_name() == module_folder_name@,
            r.spec_sources() == sources@,
    {
        PathRequireMode { module_folder_name, sources }
    }

    /// Loads the convention document over `sources`: absence is success with
    /// the mapping unchanged; a document without a well-typed alias mapping
    /// is a reported error, fail-closed; a recognized one has exactly its
    /// aliases written over the mapping, decorated, the later load winning.
    pub fn load_luaurc(sources: AliasMap, document: Option<&str>) -> (r: Result<
        AliasMap,
        ConfigError,
    >)
        requires
            sources.wf(),
        ensures
            document is None ==> (r matches Ok(m) && m@ == sources@),
            r matches Ok(m) ==> m.wf(),
            document matches Some(text) ==> (r is Ok <==> doc_map_field(text@, "aliases"@)
                is Some),
            document matches Some(text) ==> (r matches Ok(m) ==> merge_spec(
                sources@,
                doc_map_field(text@, "aliases"@).unwrap(),
                m@,
            )),
            document matches Some(text) ==> (r matches Err(e) ==> ((e is Syntax
                <==> doc_field_names(text@) is None) && (e is MissingAliases <==> doc_field_names(
                text@,
            ) is Some && !doc_field_names(text@).unwrap().contains("aliases"@)) && (
            e is AliasesNotStringMap <==> doc_field_names(text@) is Some && doc_field_names(
                text@,
            ).unwrap().contains("aliases"@) && doc_map_field(text@, "aliases"@) is None))),
            r is Err ==> document is Some,
    {
        let text = match document {
            None => {
                return Ok(sources);
            },
            Some(t) => t,
        };
        let fields = match parse_object(text) {
            Ok(f) => f,
            Err(message) => {
                return Err(ConfigError::Syntax { message });
            },
        };
        let mut merged = sources;
        let n: usize = fields.len();
        let mut i: usize = 0;
        while i < n
            invariant
                0 <= i <= n,
                n == fields@.len(),
                merged.wf(),
                merged@ == sources@,
                document matches Some(t) && t@ == text@,
                doc_field_names(text@) is Some,
                forall|j: int|
                    0 <= j < n ==> doc_field_names(text@).unwrap().contains(
                        #[trigger] fields@[j].0@,
                    ),
                forall|k: Seq<char>|
                    doc_field_names(text@).unwrap().contains(k) ==> exists|j: int|
                        0 <= j < n && #[trigger] fields@[j].0@ == k,
                forall|j: int|
                    0 <= j < n ==> string_map_of(#[trigger] fields@[j].1) == doc_map_field(
                        text@,
                        fields@[j].0@,
                    ),
                forall|k: Seq<char>|
                    !doc_field_names(text@).unwrap().contains(k) ==> #[trigger] doc_map_field(
                        text@,
                        k,
                    ) is None,
                forall|j: int| 0 <= j < i ==> fields@[j].0@ != "aliases"@,
            decreases n - i,
        {
            if text_eq(fields[i].0.as_str(), "aliases") {
                proof {
                    assert(string_map_of(fields@[i as int].1) == doc_map_field(text@, "aliases"@));
                }
                match value_as_string_map(&fields[i].1) {
                    Some(parsed) => {
                        merge_aliases(&mut merged, &parsed);
                        proof {
                            assert(merge_spec(
                                sources@,
                                pairs_map(pair_views(parsed@)),
                                merged@,
                            ));
                            assert(pairs_map(pair_views(parsed@)) == doc_map_field(
                                text@,
                                "aliases"@,
                            ).unwrap());
                        }
                        return Ok(merged);
                    },
                    None => {
                        return Err(ConfigError::AliasesNotStringMap);
                    },
                }
            }
            i = i + 1;
        }
        proof {
            assert(!doc_field_names(text@).unwrap().contains("aliases"@)) by {
                if doc_field_names(text@).unwrap().contains("aliases"@) {
                    let j = choose|j: int| 0 <= j < n && #[trigger] fields@[j].0@ == "aliases"@;
                    assert(false);
                }
            }
        }
        Err(ConfigError::MissingAliases)
    }

    /// Whether the path's final component, whole or extension-stripped,
    /// equals the configured module folder name. Pure and lexical.
    pub fn is_module_folder_name(&self, path: &str) -> (r: bool)
        ensures
            r == spec_is_module_folder(self.spec_module_folder_name(), path@),
    {
        let n: usize = path.unicode_len();
        let mut m: usize = n;
        proof {
            assert(path@.subrange(0, n as int) =~= path@);
        }
        while m > 0 && path.get_char(m - 1) == '/'
            invariant
                0 <= m <= n,
                n == path@.len(),
                trim_trailing_slashes(path@) == trim_trailing_slashes(
                    path@.subrange(0, m as int),
                ),
            decreases m,
        {
            proof {
                assert(path@.subrange(0, m as int).drop_last() =~= path@.subrange(
                    0,
                    m as int - 1,
                ));
            }
            m = m - 1;
        }
        let trimmed = path.substring_char(0, m);
        proof {
            assert(trimmed@ == trim_trailing_slashes(path@));
        }
        let slash = find_last(trimmed, '/');
        proof {
            crate::text::lemma_last_index_of(trimmed@, '/');
        }
        let leaf = match slash {
            Some(li) => trimmed.substring_char(li + 1, m),
            None => trimmed,
        };
        proof {
            assert(leaf@ == leaf_of(trimmed@));
            reveal_strlit(".");
            reveal_strlit("..");
            assert("."@ =~= seq!['.']);
            assert(".."@ =~= seq!['.', '.']);
        }
        if text_eq(leaf, ".") || text_eq(leaf, "..") {
            return false;
        }
        if text_eq(leaf, self.module_folder_name.as_str()) {
            return true;
        }
        let dot = find_last(leaf, '.');
        proof {
            crate::text::lemma_last_index_of(leaf@, '.');
        }
        let stem = match dot {
            Some(di) => {
                if di == 0 {
                    leaf
                } else {
                    leaf.substring_char(0, di)
                }
            },
            None => leaf,
        };
        proof {
            assert(stem@ == stem_of(leaf@));
        }
        text_eq(stem, self.module_folder_name.as_str())
    }

    /// Decides whether a call is a recognized path-style import: the literal
    /// to hand the external locating walk when it is, nothing when it is not
    /// — an unrecognized shape is never a failure.
    pub fn find_require(&self, call: &FunctionCall) -> (r: Option<String>)
        ensures
            match r {
                Some(lit) => is_path_require(*call) && lit@ == literal_text(call.arguments),
                None => !is_path_require(*call),
            },
    {
        match match_path_require_call(call) {
            Some(e) => Some(e.get_value().clone()),
            None => None,
        }
    }

    /// Builds the mode from an embedding configuration document. The two
    /// recognized fields are optional: a missing folder name defaults to
    /// `init`, missing sources start empty. Any other field rejects the
    /// whole document. The convention document's aliases are then merged
    /// over the supplied sources, the convention winning.
    pub fn deserialize(document: &str, convention: Option<&str>) -> (r: Result<Self, ConfigError>)
        ensures
            doc_field_names(document@) is None ==> (r matches Err(e) && e is Syntax),
            doc_field_names(document@) matches Some(names) ==> (!names.subset_of(
                recognized_fields(),
            ) ==> r is Err),
            r matches Ok(m) ==> m.wf(),
            r is Ok <==> (valid_mode_document(document@) && (doc_field_names(
                document@,
            ).unwrap().contains("sources"@) ==> (match convention {
                Some(c) => doc_map_field(c@, "aliases"@) is Some,
                None => true,
            }))),
            r matches Ok(m) ==> (if doc_field_names(document@).unwrap().contains(
                "module_folder_name"@,
            ) {
                m.spec_module_folder_name() == doc_string_field(
                    document@,
                    "module_folder_name"@,
                ).unwrap()
            } else {
                m.spec_module_folder_name() == "init"@
            }),
            r matches Ok(m) ==> ({
                let start = if doc_field_names(document@).unwrap().contains("sources"@) {
                    doc_map_field(document@, "sources"@).unwrap()
                } else {
                    Map::<Seq<char>, Seq<char>>::empty()
                };
                match convention {
                    None => m.spec_sources() == start,
                    Some(c) => match doc_map_field(c@, "aliases"@) {
                        Some(am) => merge_spec(start, am, m.spec_sources()),
                        None => !doc_field_names(document@).unwrap().contains("sources"@)
                            && m.spec_sources() == Map::<Seq<char>, Seq<char>>::empty(),
                    },
                }
            }),
    {
        let fields = match parse_object(document) {
            Ok(f) => f,
            Err(message) => {
                return Err(ConfigError::Syntax { message });
            },
        };
        let mut folder: Option<String> = None;
        let mut start = AliasMap::new();
        let mut explicit_sources = false;
        let n: usize = fields.len();
        let mut i: usize = 0;
        while i < n
            invariant
                0 <= i <= n,
                n == fields@.len(),
                start.wf(),
                doc_field_names(document@) is Some,
                forall|j: int|
                    0 <= j < n ==> doc_field_names(document@).unwrap().contains(
                        #[trigger] fields@[j].0@,
                    ),
                forall|k: Seq<char>|
                    doc_field_names(document@).unwrap().contains(k) ==> exists|j: int|
                        0 <= j < n && #[trigger] fields@[j].0@ == k,
                forall|j: int|
                    0 <= j < n ==> string_of(#[trigger] fields@[j].1) == doc_string_field(
                        document@,
                        fields@[j].0@,
                    ),
                forall|j: int|
                    0 <= j < n ==> string_map_of(#[trigger] fields@[j].1) == doc_map_field(
                        document@,
                        fields@[j].0@,
                    ),
                forall|j: int| 0 <= j < i ==> recognized_fields().contains(#[trigger] fields@[j].0@),
                folder is Some <==> exists|j: int|
                    0 <= j < i && #[trigger] fields@[j].0@ == "module_folder_name"@,
                folder matches Some(s) ==> (doc_string_field(document@, "module_folder_name"@)
                    matches Some(v) && s@ == v),
                explicit_sources <==> exists|j: int|
                    0 <= j < i && #[trigger] fields@[j].0@ == "sources"@,
                explicit_sources ==> (doc_map_field(document@, "sources"@) matches Some(sm)
                    && start@ == sm),
                !explicit_sources ==> start@ == Map::<Seq<char>, Seq<char>>::empty(),
            decreases n - i,
        {
            proof {
                broadcast use vstd::string::group_string_axioms;

                reveal_strlit("module_folder_name");
                reveal_strlit("sources");
                assert("module_folder_name"@.len() == 18);
                assert("sources"@.len() == 7);
                assert("module_folder_name"@ != "sources"@);
            }
            if text_eq(fields[i].0.as_str(), "module_folder_name") {
                match value_as_string(&fields[i].1) {
                    Some(s) => {
                        folder = Some(s);
                        proof {
                            assert(fields@[i as int].0@ == "module_folder_name"@);
                        }
                    },
                    None => {
                        proof {
                            assert(doc_string_field(document@, "module_folder_name"@) is None);
                        }
                        return Err(ConfigError::FieldType { name: fields[i].0.clone() });
                    },
                }
            } else if text_eq(fields[i].0.as_str(), "sources") {
                match value_as_string_map(&fields[i].1) {
                    Some(entries) => {
                        explicit_sources = true;
                        start = AliasMap::from_pairs(&entries);
                        proof {
                            assert(fields@[i as int].0@ == "sources"@);
                        }
                    },
                    None => {
                        proof {
                            assert(doc_map_field(document@, "sources"@) is None);
                        }
                        return Err(ConfigError::FieldType { name: fields[i].0.clone() });
                    },
                }
            } else {
                proof {
                    assert(!recognized_fields().contains(fields@[i as int].0@));
                    assert(!doc_field_names(document@).unwrap().subset_of(recognized_fields()));
                }
                return Err(ConfigError::UnknownField { name: fields[i].0.clone() });
            }
            i = i + 1;
        }
        let merged = if explicit_sources {
            match Self::load_luaurc(start, convention) {
                Ok(m) => m,
                Err(e) => {
                    return Err(e);
                },
            }
        } else {
            default_sources(convention)
        };
        let name = match folder {
            Some(s) => s,
            None => String::from_str("init"),
        };
        proof {
            assert forall|k: Seq<char>|
                doc_field_names(document@).unwrap().contains(k) implies recognized_fields().contains(
                k,
            ) by {
                let j = choose|j: int| 0 <= j < n && #[trigger] fields@[j].0@ == k;
                assert(recognized_fields().contains(fields@[j].0@));
            }
            if doc_field_names(document@).unwrap().contains("module_folder_name"@) {
                let j = choose|j: int|
                    0 <= j < n && #[trigger] fields@[j].0@ == "module_folder_name"@;
                assert(folder is Some);
            }
            if doc_field_names(document@).unwrap().contains("sources"@) {
                let j = choose|j: int| 0 <= j < n && #[trigger] fields@[j].0@ == "sources"@;
                assert(explicit_sources);
            }
            assert(valid_mode_document(document@));
        }
        Ok(PathRequireMode { module_folder_name: name, sources: merged })
    }

    /// The merged alias mapping.
    pub fn sources(&self) -> (r: &AliasMap)
        ensures
            r@ == self.spec_sources(),
    {
        &self.sources
    }

    /// The configured module folder name.
    pub fn module_folder_name(&self) -> (r: &String)
        ensures
            r@ == self.spec_module_folder_name(),
    {
        &self.module_folder_name
    }

    /// The base path bound to an alias key, when the key is bound.
    pub fn get_source(&self, name: &str) -> (r: Option<&String>)
        requires
            self.wf(),
        ensures
            match r {
                Some(v) => self.spec_sources().contains_key(name@) && v@
                    == self.spec_sources()[name@],
                None => !self.spec_sources().contains_key(name@),
            },
    {
        self.sources.get(name)
    }
}

impl Default for PathRequireMode {
    /// The default mode: folder name `init`, no aliases beyond the
    /// convention document (which the caller supplies separately).
    fn default() -> (r: Self)
        ensures
            r.wf(),
            r.spec_module_folder_name() == "init"@,
            r.spec_sources() == Map::<Seq<char>, Seq<char>>::empty(),
    {
        PathRequireMode::new("init", None)
    }
}

/// The starting alias mapping of a default-constructed mode: the convention
/// document's aliases over an empty mapping, or empty when the document is
/// absent or holds no well-typed alias mapping (such a failure is swallowed
/// here, as default construction reports no errors).
pub fn default_sources(convention: Option<&str>) -> (r: AliasMap)
    ensures
        r.wf(),
        convention is None ==> r@ == Map::<Seq<char>, Seq<char>>::empty(),
        convention matches Some(t) ==> (match doc_map_field(t@, "aliases"@) {
            Some(am) => merge_spec(Map::<Seq<char>, Seq<char>>::empty(), am, r@),
            None => r@ == Map::<Seq<char>, Seq<char>>::empty(),
        }),
        forall|k: Seq<char>| #[trigger] r@.contains_key(k) ==> k.len() >= 1 && k[0] == '@',
{
    match PathRequireMode::load_luaurc(AliasMap::new(), convention) {
        Ok(m) => {
            proof {
                match convention {
                    Some(t) => {
                        assert(merge_spec(
                            Map::<Seq<char>, Seq<char>>::empty(),
                            doc_map_field(t@, "aliases"@).unwrap(),
                            m@,
                        ));
                        assert forall|k: Seq<char>| #[trigger] m@.contains_key(k) implies k.len()
                            >= 1 && k[0] == '@' by {
                            assert(!Map::<Seq<char>, Seq<char>>::empty().contains_key(k));
                        }
                    },
                    None => {},
                }
            }
            m
        },
        Err(_) => AliasMap::new(),
    }
}

} // verus!
