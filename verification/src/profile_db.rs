//! Profile database: the built-in profiles (an embedded JSON document) keyed
//! by format prefix, with per-prefix alternates for small device frames.

use vstd::prelude::*;
use vstd::string::StringSliceAdditionalSpecFns;
use std::collections::HashMap;
use crate::error::DecodeError;
use crate::profile::{Encoding, Profile, ProfileSpec, default_profile};
use crate::profile_parser::json::{JsonError, profiles_json};
use crate::profile_parser::parse_profiles_json;
use crate::profile_parser::profile::profiles_view;

verus! {

broadcast use vstd::std_specs::hash::group_hash_axioms;

/// The built-in profile document.
pub const BUILTIN_PROFILES_JSON: &'static str = r#"[
{"prefix":1007,"width":480,"height":864,"encoding":"Rgb565","frame_byte_length":829440},
{"prefix":1009,"width":42,"height":30,"encoding":"Rgb565","frame_byte_length":2520},
{"prefix":1010,"width":240,"height":240,"encoding":"Rgb565","frame_byte_length":115200},
{"prefix":1013,"width":220,"height":176,"encoding":"Rgb565","frame_byte_length":77440,"little_endian":false,"rotation":90},
{"prefix":1015,"width":130,"height":88,"encoding":"Rgb565","frame_byte_length":22880},
{"prefix":1016,"width":140,"height":140,"encoding":"Rgb565","frame_byte_length":39200},
{"prefix":1017,"width":56,"height":56,"encoding":"Rgb565","frame_byte_length":6272},
{"prefix":1019,"width":720,"height":480,"encoding":"Yuv422","frame_byte_length":691200,"is_interlaced":true},
{"prefix":1023,"width":176,"height":132,"encoding":"Rgb565","frame_byte_length":46464},
{"prefix":1024,"width":320,"height":240,"encoding":"Rgb565","frame_byte_length":153600},
{"prefix":1027,"width":100,"height":100,"encoding":"Rgb565","frame_byte_length":20000},
{"prefix":1028,"width":100,"height":100,"encoding":"Rgb565","frame_byte_length":20000},
{"prefix":1029,"width":200,"height":200,"encoding":"Rgb565","frame_byte_length":80000},
{"prefix":1031,"width":42,"height":42,"encoding":"Rgb565","frame_byte_length":3528},
{"prefix":1032,"width":42,"height":37,"encoding":"Rgb565","frame_byte_length":3108},
{"prefix":1036,"width":50,"height":41,"encoding":"Rgb565","frame_byte_length":4100},
{"prefix":1042,"width":320,"height":240,"encoding":"Rgb565","frame_byte_length":153600},
{"prefix":1044,"width":320,"height":320,"encoding":"Rgb565","frame_byte_length":204800},
{"prefix":1055,"width":128,"height":128,"encoding":"Rgb565","frame_byte_length":32768},
{"prefix":1056,"width":80,"height":80,"encoding":"Rgb565","frame_byte_length":12800},
{"prefix":1057,"width":240,"height":240,"encoding":"Rgb565","frame_byte_length":115200},
{"prefix":1060,"width":320,"height":320,"encoding":"Rgb565","frame_byte_length":204800},
{"prefix":1061,"width":56,"height":55,"encoding":"Rgb565","frame_byte_length":6160,"use_mhni_dimensions":true},
{"prefix":1065,"width":176,"height":176,"encoding":"Rgb565","frame_byte_length":61952},
{"prefix":1066,"width":64,"height":64,"encoding":"Rgb565","frame_byte_length":8192},
{"prefix":1067,"width":720,"height":480,"encoding":"Ycbcr420","frame_byte_length":518400},
{"prefix":1068,"width":128,"height":128,"encoding":"Rgb565","frame_byte_length":32768},
{"prefix":1071,"width":240,"height":240,"encoding":"Rgb565","frame_byte_length":115200},
{"prefix":1072,"width":240,"height":240,"encoding":"Rgb565","frame_byte_length":115200},
{"prefix":1073,"width":240,"height":240,"encoding":"Rgb565","frame_byte_length":115200},
{"prefix":1074,"width":50,"height":50,"encoding":"Rgb565","frame_byte_length":5000},
{"prefix":1076,"width":80,"height":80,"encoding":"Rgb565","frame_byte_length":12800},
{"prefix":1078,"width":80,"height":80,"encoding":"Rgb565","frame_byte_length":12800},
{"prefix":1079,"width":80,"height":80,"encoding":"Rgb565","frame_byte_length":12800},
{"prefix":1081,"width":640,"height":480,"encoding":"Rgb565","frame_byte_length":614400,"fallback_encodings":["Jpeg"]},
{"prefix":1083,"width":240,"height":320,"encoding":"Rgb565","frame_byte_length":153600},
{"prefix":1084,"width":240,"height":240,"encoding":"Rgb565","frame_byte_length":115200},
{"prefix":1085,"width":88,"height":88,"encoding":"Rgb565","frame_byte_length":15488},
{"prefix":1087,"width":384,"height":384,"encoding":"Rgb565","frame_byte_length":294912},
{"prefix":1089,"width":58,"height":58,"encoding":"Rgb565","frame_byte_length":6728},
{"prefix":1092,"width":80,"height":80,"encoding":"Rgb565","frame_byte_length":12800},
{"prefix":1093,"width":512,"height":512,"encoding":"Rgb565","frame_byte_length":524288},
{"prefix":2002,"width":50,"height":50,"encoding":"Rgb565","frame_byte_length":5000,"little_endian":false},
{"prefix":2003,"width":150,"height":150,"encoding":"Rgb565","frame_byte_length":45000,"little_endian":false},
{"prefix":3001,"width":256,"height":256,"encoding":"Rgb555","frame_byte_length":131072},
{"prefix":3002,"width":128,"height":128,"encoding":"Rgb555","frame_byte_length":32768},
{"prefix":3003,"width":64,"height":64,"encoding":"Rgb555","frame_byte_length":8192},
{"prefix":3004,"width":56,"height":55,"encoding":"Rgb555","frame_byte_length":6160,"is_padded":true,"slot_size":8192},
{"prefix":3005,"width":320,"height":320,"encoding":"Rgb555","frame_byte_length":204800},
{"prefix":3006,"width":56,"height":56,"encoding":"Rgb555","frame_byte_length":6272},
{"prefix":3007,"width":88,"height":88,"encoding":"Rgb555","frame_byte_length":15488},
{"prefix":3008,"width":640,"height":480,"encoding":"Rgb555","frame_byte_length":614400},
{"prefix":3009,"width":160,"height":120,"encoding":"Rgb555","frame_byte_length":38400},
{"prefix":3011,"width":80,"height":79,"encoding":"Rgb555","frame_byte_length":12640}
]
"#;

/// The built-in prefix kept out of the active set: writing it to an iPod
/// Classic corrupts cover art.
pub const DISABLED_PREFIX: i32 = 1044;

/// How far a frame's length may be from an alternate's frame length for
/// that alternate to be chosen.
pub const ALTERNATE_TOLERANCE: usize = 256;

/// The value of a profile database: the profiles by prefix and the
/// alternates by prefix.
pub struct DbSpec {
    pub table: Map<i32, ProfileSpec>,
    pub alternates: Map<i32, Seq<ProfileSpec>>,
}

/// An in-memory profile database keyed by format prefix.
#[derive(Debug, Clone)]
pub struct ProfileDb {
    profiles: HashMap<i32, Profile>,
    alternates: HashMap<i32, Vec<Profile>>,
}

/// The values of a map of profiles.
pub open spec fn table_view(m: Map<i32, Profile>) -> Map<i32, ProfileSpec> {
    m.map_values(|p: Profile| p@)
}

/// The values of a map of profile lists.
pub open spec fn alternates_view(m: Map<i32, Vec<Profile>>) -> Map<i32, Seq<ProfileSpec>> {
    m.map_values(|v: Vec<Profile>| profiles_view(v@))
}

impl View for ProfileDb {
    type V = DbSpec;

    closed spec fn view(&self) -> DbSpec {
        DbSpec { table: table_view(self.profiles@), alternates: alternates_view(self.alternates@) }
    }
}

/// The table the built-in profiles make: each profile under its prefix, a
/// later one replacing an earlier one, the disabled prefix left out.
pub open spec fn builtin_table(ps: Seq<ProfileSpec>, n: int) -> Map<i32, ProfileSpec>
    decreases n,
{
    if n <= 0 {
        Map::empty()
    } else {
        let m = builtin_table(ps, n - 1);
        let p = ps[n - 1];
        if p.prefix == DISABLED_PREFIX {
            m
        } else {
            m.insert(p.prefix, p)
        }
    }
}

/// `t` with the profiles `ps[..n]` put in by prefix, later ones replacing
/// earlier ones.
pub open spec fn merged_table(t: Map<i32, ProfileSpec>, ps: Seq<ProfileSpec>, n: int) -> Map<i32, ProfileSpec>
    decreases n,
{
    if n <= 0 {
        t
    } else {
        merged_table(t, ps, n - 1).insert(ps[n - 1].prefix, ps[n - 1])
    }
}

/// The last of the first `n` profiles with prefix `k`, if any.
pub open spec fn last_with(ps: Seq<ProfileSpec>, n: int, k: i32) -> Option<ProfileSpec>
    decreases n,
{
    if n <= 0 {
        None
    } else if ps[n - 1].prefix == k {
        Some(ps[n - 1])
    } else {
        last_with(ps, n - 1, k)
    }
}

/// Reading back a merge: a prefix the merged profiles name holds the last
/// of them with that prefix; any other prefix keeps what the table held.
pub proof fn lemma_merge_lookup(t: Map<i32, ProfileSpec>, ps: Seq<ProfileSpec>, n: int, k: i32)
    ensures
        match last_with(ps, n, k) {
            Some(p) => merged_table(t, ps, n).contains_key(k) && merged_table(t, ps, n)[k] == p,
            None => merged_table(t, ps, n).contains_key(k) == t.contains_key(k) && merged_table(t, ps, n)[k]
                == t[k],
        },
    decreases n,
{
    if n > 0 {
        lemma_merge_lookup(t, ps, n - 1, k);
    }
}

/// The built-in table never holds the disabled prefix, and holds every
/// other prefix of the document with the document's last profile for it.
pub proof fn lemma_builtin_table_lookup(ps: Seq<ProfileSpec>, n: int, k: i32)
    ensures
        !builtin_table(ps, n).contains_key(DISABLED_PREFIX),
        k != DISABLED_PREFIX ==> match last_with(ps, n, k) {
            Some(p) => builtin_table(ps, n).contains_key(k) && builtin_table(ps, n)[k] == p,
            None => !builtin_table(ps, n).contains_key(k),
        },
    decreases n,
{
    if n > 0 {
        lemma_builtin_table_lookup(ps, n - 1, k);
    }
}

/// A small little-endian RGB565 device frame profile.
pub open spec fn small_frame_profile(prefix: i32, w: i32, h: i32) -> ProfileSpec {
    ProfileSpec {
        prefix,
        width: w,
        height: h,
        encoding: Encoding::Rgb565,
        frame_byte_length: (w * h * 2) as i32,
        little_endian: true,
        ..default_profile()
    }
}

/// The built-in alternates: the Nano 7G cover-art frames stored under
/// otherwise global prefixes.
pub open spec fn builtin_alternates() -> Map<i32, Seq<ProfileSpec>> {
    map![
        1013i32 => seq![small_frame_profile(1013, 50, 50)],
        1015i32 => seq![small_frame_profile(1015, 58, 58)],
        1016i32 => seq![small_frame_profile(1016, 57, 57)],
    ]
}

/// The built-in database, or why the built-in document was rejected.
pub open spec fn builtin_db() -> Result<DbSpec, JsonError> {
    match profiles_json(BUILTIN_PROFILES_JSON.spec_bytes()) {
        Ok(ps) => Ok(DbSpec { table: builtin_table(ps, ps.len() as int), alternates: builtin_alternates() }),
        Err(e) => Err(e),
    }
}

/// `data_len` is within `ALTERNATE_TOLERANCE` of the profile's frame length.
pub open spec fn fits_frame(data_len: usize, p: ProfileSpec) -> bool {
    let f = p.frame_byte_length as usize;
    (if data_len >= f { data_len - f } else { f - data_len }) <= ALTERNATE_TOLERANCE
}

/// How far `data_len` is from the profile's frame length.
pub open spec fn frame_delta(data_len: usize, p: ProfileSpec) -> int {
    let f = p.frame_byte_length as usize;
    if data_len >= f {
        data_len - f
    } else {
        f - data_len
    }
}

/// The first of `alts[i..]` whose frame length fits `data_len`.
pub open spec fn first_fitting(alts: Seq<ProfileSpec>, data_len: usize, i: int) -> Option<ProfileSpec>
    decreases alts.len() - i,
{
    if i < 0 || i >= alts.len() {
        None
    } else if fits_frame(data_len, alts[i]) {
        Some(alts[i])
    } else {
        first_fitting(alts, data_len, i + 1)
    }
}

/// The profile that `resolve` picks for a prefix and a frame length: a
/// fitting alternate first, else the prefix's own profile.
pub open spec fn resolved(db: DbSpec, prefix: i32, data_len: usize) -> Option<ProfileSpec> {
    let alt = if db.alternates.contains_key(prefix) {
        first_fitting(db.alternates[prefix], data_len, 0)
    } else {
        None
    };
    match alt {
        Some(a) => Some(a),
        None => if db.table.contains_key(prefix) {
            Some(db.table[prefix])
        } else {
            None
        },
    }
}

proof fn lemma_table_insert(m: Map<i32, Profile>, k: i32, v: Profile)
    ensures
        table_view(m.insert(k, v)) == table_view(m).insert(k, v@),
{
    assert(table_view(m.insert(k, v)) =~= table_view(m).insert(k, v@));
}

fn nano_alternate(prefix: i32, width: i32, height: i32) -> (r: Profile)
    requires
        0 <= width <= 100,
        0 <= height <= 100,
    ensures
        r@ == small_frame_profile(prefix, width, height),
{
    let mut p = Profile::default();
    p.prefix = prefix;
    p.width = width;
    p.height = height;
    p.encoding = Encoding::Rgb565;
    assert(width * height * 2 <= 20000) by (nonlinear_arith)
        requires
            0 <= width <= 100,
            0 <= height <= 100,
    ;
    assert(width * height * 2 >= 0) by (nonlinear_arith)
        requires
            0 <= width,
            0 <= height,
    ;
    p.frame_byte_length = width * height * 2;
    p.little_endian = true;
    p
}

fn single(p: Profile) -> (r: Vec<Profile>)
    ensures
        profiles_view(r@) == seq![p@],
{
    let mut v: Vec<Profile> = Vec::new();
    v.push(p);
    assert(profiles_view(v@) =~= seq![p@]);
    v
}

impl ProfileDb {
    /// Loads the built-in profiles from the embedded document, leaving out
    /// the disabled prefix, with the Nano 7G alternates for 1013 (50×50),
    /// 1015 (58×58) and 1016 (57×57).
    ///
    /// Errors: `Profile` if the embedded document cannot be parsed.
    pub fn load_builtin() -> (r: Result<Self, DecodeError>)
        ensures
            match builtin_db() {
                Ok(d) => r is Ok && r->Ok_0@ == d,
                Err(_) => r is Err && r->Err_0 is Profile,
            },
    {
        let profiles = match parse_profiles_json(BUILTIN_PROFILES_JSON) {
            Ok(ps) => ps,
            Err(e) => {
                return Err(e);
            },
        };
        let ghost ps = profiles_view(profiles@);
        let mut map: HashMap<i32, Profile> = HashMap::new();
        let n = profiles.len();
        let mut i: usize = 0;
        while i < n
            invariant
                0 <= i <= n,
                n == profiles@.len(),
                ps == profiles_view(profiles@),
                table_view(map@) == builtin_table(ps, i as int),
            decreases n - i,
        {
            let p = profiles[i].clone();
            if p.prefix != DISABLED_PREFIX {
                proof {
                    lemma_table_insert(map@, p.prefix, p);
                }
                map.insert(p.prefix, p);
            }
            i = i + 1;
        }
        let mut alternates: HashMap<i32, Vec<Profile>> = HashMap::new();
        let a1 = single(nano_alternate(1013, 50, 50));
        let a2 = single(nano_alternate(1015, 58, 58));
        let a3 = single(nano_alternate(1016, 57, 57));
        alternates.insert(1013, a1);
        alternates.insert(1015, a2);
        alternates.insert(1016, a3);
        let db = ProfileDb { profiles: map, alternates };
        proof {
            let m = alternates_view(db.alternates@);
            let t = builtin_alternates();
            assert(m.dom() =~= t.dom());
            assert(m[1013] == t[1013]);
            assert(m[1015] == t[1015]);
            assert(m[1016] == t[1016]);
            assert(m =~= t);
        }
        Ok(db)
    }

    /// Parses a profile document and merges its profiles into the database,
    /// each replacing any profile under the same prefix.
    ///
    /// Errors: `Profile` if the document cannot be parsed; the database is
    /// then unchanged.
    pub fn merge_json(&mut self, text: &str) -> (r: Result<(), DecodeError>)
        ensures
            match profiles_json(text.spec_bytes()) {
                Ok(ps) => r is Ok && final(self)@ == DbSpec {
                    table: merged_table(old(self)@.table, ps, ps.len() as int),
                    alternates: old(self)@.alternates,
                },
                Err(_) => r is Err && r->Err_0 is Profile && final(self)@ == old(self)@,
            },
    {
        let profiles = match parse_profiles_json(text) {
            Ok(ps) => ps,
            Err(e) => {
                return Err(e);
            },
        };
        let ghost ps = profiles_view(profiles@);
        let n = profiles.len();
        let mut i: usize = 0;
        while i < n
            invariant
                0 <= i <= n,
                n == profiles@.len(),
                ps == profiles_view(profiles@),
                self.alternates == old(self).alternates,
                table_view(self.profiles@) == merged_table(table_view(old(self).profiles@), ps, i as int),
            decreases n - i,
        {
            let p = profiles[i].clone();
            proof {
                lemma_table_insert(self.profiles@, p.prefix, p);
            }
            self.profiles.insert(p.prefix, p);
            i = i + 1;
        }
        Ok(())
    }

    /// Looks up the profile of a format prefix.
    pub fn get(&self, prefix: i32) -> (r: Option<&Profile>)
        ensures
            match r {
                Some(p) => self@.table.contains_key(prefix) && p@ == self@.table[prefix],
                None => !self@.table.contains_key(prefix),
            },
    {
        self.profiles.get(&prefix)
    }

    /// Resolves the profile for `prefix` and a frame of `data_len` bytes: the
    /// first alternate of the prefix whose frame length is within 256 bytes
    /// of `data_len`, else the prefix's own profile.
    pub fn resolve(&self, prefix: i32, data_len: usize) -> (r: Option<Profile>)
        ensures
            match r {
                Some(p) => resolved(self@, prefix, data_len) == Some(p@),
                None => resolved(self@, prefix, data_len) is None,
            },
    {
        match self.alternates.get(&prefix) {
            Some(alts) => {
                let n = alts.len();
                let ghost av = profiles_view(alts@);
                assert(av == self@.alternates[prefix]);
                assert(self@.alternates.contains_key(prefix));
                let mut i: usize = 0;
                while i < n
                    invariant
                        0 <= i <= n,
                        n == alts@.len(),
                        av == profiles_view(alts@),
                        self@.alternates.contains_key(prefix),
                        av == self@.alternates[prefix],
                        first_fitting(av, data_len, 0) == first_fitting(av, data_len, i as int),
                    decreases n - i,
                {
                    let f = alts[i].frame_byte_length as usize;
                    let delta = if data_len >= f {
                        data_len - f
                    } else {
                        f - data_len
                    };
                    assert(av[i as int] == alts@[i as int]@);
                    if delta <= ALTERNATE_TOLERANCE {
                        return Some(alts[i].clone());
                    }
                    i = i + 1;
                }
            },
            None => {},
        }
        match self.profiles.get(&prefix) {
            Some(p) => Some(p.clone()),
            None => None,
        }
    }

    /// The profile whose frame length is nearest to `data_len`, among those
    /// within 256 bytes of it (ties go to whichever the map yields first).
    pub fn nearest_frame(&self, data_len: usize) -> (r: Option<Profile>)
        ensures
            match r {
                Some(p) => self@.table.values().contains(p@) && frame_delta(data_len, p@) <= ALTERNATE_TOLERANCE
                    && forall|k: i32|
                    #[trigger] self@.table.contains_key(k) ==> frame_delta(data_len, p@) <= frame_delta(
                        data_len,
                        self@.table[k],
                    ),
                None => forall|k: i32|
                    #[trigger] self@.table.contains_key(k) ==> frame_delta(data_len, self@.table[k])
                        > ALTERNATE_TOLERANCE,
            },
    {
        let mut best: Option<Profile> = None;
        let mut best_delta: usize = usize::MAX;
        let ghost m = self.profiles@;
        for kv in it: self.profiles.iter()
            invariant
                m == self.profiles@,
                best is None ==> best_delta == usize::MAX,
                best matches Some(b) ==> table_view(m).values().contains(b@) && frame_delta(data_len, b@)
                    == best_delta && best_delta <= ALTERNATE_TOLERANCE,
                forall|j: int|
                    0 <= j < it.index() ==> frame_delta(data_len, (#[trigger] it.seq()[j]).1@) > ALTERNATE_TOLERANCE
                        || best_delta <= frame_delta(data_len, it.seq()[j].1@),
        {
            let (k, p) = kv;
            proof {
                assert(m.contains_key(*k) && m[*k] == *p);
                assert(table_view(m).contains_key(*k) && table_view(m)[*k] == p@);
                assert(table_view(m).values().contains(p@));
            }
            let f = p.frame_byte_length as usize;
            let delta = if data_len >= f {
                data_len - f
            } else {
                f - data_len
            };
            if delta <= ALTERNATE_TOLERANCE && delta < best_delta {
                best_delta = delta;
                best = Some(p.clone());
            }
        }
        best
    }

    /// The prefixes of the database in ascending order.
    pub fn sorted_prefixes(&self) -> (r: Vec<i32>)
        ensures
            forall|i: int, j: int| 0 <= i < j < r@.len() ==> r@[i] < r@[j],
            forall|k: i32| #[trigger] r@.contains(k) <==> self@.table.contains_key(k),
    {
        let mut out: Vec<i32> = Vec::new();
        let ghost m = self.profiles@;
        for kv in it: self.profiles.iter()
            invariant
                m == self.profiles@,
                forall|i: int, j: int| 0 <= i < j < out@.len() ==> out@[i] < out@[j],
                forall|x: i32| #[trigger] out@.contains(x) ==> m.contains_key(x),
                forall|j: int| 0 <= j < it.index() ==> out@.contains(*(#[trigger] it.seq()[j]).0),
        {
            let (k, p) = kv;
            proof {
                assert(m.contains_key(*k) && m[*k] == *p);
            }
            let key = *k;
            let n = out.len();
            let mut pos: usize = 0;
            while pos < n && out[pos] < key
                invariant
                    0 <= pos <= n,
                    n == out@.len(),
                    forall|i: int| 0 <= i < pos ==> out@[i] < key,
                decreases n - pos,
            {
                pos = pos + 1;
            }
            if pos < n && out[pos] == key {
                assert(out@[pos as int] == key);
                assert(out@.contains(key));
            } else {
                let ghost before = out@;
                out.insert(pos, key);
                proof {
                    assert(out@ == before.insert(pos as int, key));
                    assert(out@[pos as int] == key);
                    assert(out@.contains(key));
                    assert forall|i: int, j: int| 0 <= i < j < out@.len() implies out@[i] < out@[j] by {
                        if j < pos {
                        } else if j == pos {
                        } else if i < pos {
                            assert(before[i] < key);
                            assert(pos < n ==> key < before[pos as int]);
                        } else if i == pos {
                            assert(key < before[pos as int]);
                        }
                    }
                    assert forall|x: i32| #[trigger] out@.contains(x) implies m.contains_key(x) by {
                        let t = choose|t: int| 0 <= t < out@.len() && out@[t] == x;
                        if t != pos {
                            let u = if t < pos { t } else { t - 1 };
                            assert(before[u] == x);
                            assert(before.contains(x));
                        }
                    }
                    assert forall|j: int| 0 <= j < it.index() implies out@.contains(*(#[trigger] it.seq()[j]).0) by {
                        let y = *it.seq()[j].0;
                        assert(before.contains(y));
                        let t = choose|t: int| 0 <= t < before.len() && before[t] == y;
                        if t < pos {
                            assert(out@[t] == y);
                        } else {
                            assert(out@[t + 1] == y);
                        }
                    }
                }
            }
            assert(out@.contains(key));
        }
        proof {
            assert forall|x: i32| #[trigger] out@.contains(x) <==> self@.table.contains_key(x) by {
                if self@.table.contains_key(x) {
                    assert(m.contains_key(x));
                }
            }
        }
        out
    }

    /// The whole profile map.
    pub fn all(&self) -> (r: &HashMap<i32, Profile>)
        ensures
            table_view(r@) == self@.table,
    {
        &self.profiles
    }

    /// The number of profiles in the database.
    pub fn len(&self) -> (r: usize)
        ensures
            r == self@.table.len(),
    {
        proof {
            assert(self@.table.dom() =~= self.profiles@.dom());
        }
        self.profiles.len()
    }

    /// Returns `true` when no profiles are loaded.
    pub fn is_empty(&self) -> (r: bool)
        ensures
            r == (self@.table.len() == 0),
    {
        self.len() == 0
    }
}

} // verus!
