//! The resource configuration store: the registry of apartments and cameras
//! plus operational settings.
//!
//! Referential integrity — every camera names an existing apartment — is
//! checked by [`Config::validate`], not on every mutation, so a registry may
//! pass through transient invalid states while it is being built; callers
//! validate before treating it as authoritative.  Apartments are never
//! removed, so a camera's apartment reference cannot be orphaned by deletion.

use vstd::prelude::*;
use vstd::seq_lib::{group_seq_lib_default, group_seq_properties};
use vstd::string::StringExecFns;
use crate::auth::{User, UserV};
use crate::error::SurveillanceError;
use crate::text::str_eq;

verus! {

/// A video source: a named camera attached to an apartment by name
/// reference, with a connection URI and an enabled flag.
#[derive(Debug, PartialEq)]
pub struct Camera {
    pub id: u32,
    pub camera_name: String,
    pub apartment_name: String,
    pub rtsp_link: String,
    pub enabled: bool,
}

/// Specification-level picture of a camera.
pub struct CameraV {
    pub id: u32,
    pub camera_name: Seq<char>,
    pub apartment_name: Seq<char>,
    pub rtsp_link: Seq<char>,
    pub enabled: bool,
}

impl View for Camera {
    type V = CameraV;

    open spec fn view(&self) -> CameraV {
        CameraV {
            id: self.id,
            camera_name: self.camera_name@,
            apartment_name: self.apartment_name@,
            rtsp_link: self.rtsp_link@,
            enabled: self.enabled,
        }
    }
}

impl Clone for Camera {
    fn clone(&self) -> (r: Self)
        ensures
            r == *self,
    {
        Camera {
            id: self.id,
            camera_name: self.camera_name.clone(),
            apartment_name: self.apartment_name.clone(),
            rtsp_link: self.rtsp_link.clone(),
            enabled: self.enabled,
        }
    }
}

/// A physical site ("apartment") grouping cameras, named uniquely.
#[derive(Debug, PartialEq)]
pub struct Apartment {
    pub id: u32,
    pub apartment_name: String,
    pub apartment_number: String,
}

/// Specification-level picture of an apartment.
pub struct ApartmentV {
    pub id: u32,
    pub apartment_name: Seq<char>,
    pub apartment_number: Seq<char>,
}

impl View for Apartment {
    type V = ApartmentV;

    open spec fn view(&self) -> ApartmentV {
        ApartmentV {
            id: self.id,
            apartment_name: self.apartment_name@,
            apartment_number: self.apartment_number@,
        }
    }
}

impl Clone for Apartment {
    fn clone(&self) -> (r: Self)
        ensures
            r == *self,
    {
        Apartment {
            id: self.id,
            apartment_name: self.apartment_name.clone(),
            apartment_number: self.apartment_number.clone(),
        }
    }
}

/// Operational tunables.  The time-based fields must be non-zero for the
/// registry to validate.
#[derive(Debug, PartialEq)]
pub struct Settings {
    pub rotation_interval: u32,
    pub connection_timeout: u32,
    pub retry_interval: u32,
    pub max_retry_attempts: u32,
    pub low_quality_resolution: String,
    pub high_quality_resolution: String,
    pub grid_size: u32,
}

/// Specification-level picture of the settings.
pub struct SettingsV {
    pub rotation_interval: u32,
    pub connection_timeout: u32,
    pub retry_interval: u32,
    pub max_retry_attempts: u32,
    pub low_quality_resolution: Seq<char>,
    pub high_quality_resolution: Seq<char>,
    pub grid_size: u32,
}

impl View for Settings {
    type V = SettingsV;

    open spec fn view(&self) -> SettingsV {
        SettingsV {
            rotation_interval: self.rotation_interval,
            connection_timeout: self.connection_timeout,
            retry_interval: self.retry_interval,
            max_retry_attempts: self.max_retry_attempts,
            low_quality_resolution: self.low_quality_resolution@,
            high_quality_resolution: self.high_quality_resolution@,
            grid_size: self.grid_size,
        }
    }
}

impl Clone for Settings {
    fn clone(&self) -> (r: Self)
        ensures
            r == *self,
    {
        Settings {
            rotation_interval: self.rotation_interval,
            connection_timeout: self.connection_timeout,
            retry_interval: self.retry_interval,
            max_retry_attempts: self.max_retry_attempts,
            low_quality_resolution: self.low_quality_resolution.clone(),
            high_quality_resolution: self.high_quality_resolution.clone(),
            grid_size: self.grid_size,
        }
    }
}

/// The default settings.
pub open spec fn spec_default_settings() -> SettingsV {
    SettingsV {
        rotation_interval: 15,
        connection_timeout: 10,
        retry_interval: 30,
        max_retry_attempts: 5,
        low_quality_resolution: "640x480"@,
        high_quality_resolution: "1920x1080"@,
        grid_size: 16,
    }
}

impl Default for Settings {
    fn default() -> (r: Self)
        ensures
            r@ == spec_default_settings(),
    {
        Settings {
            rotation_interval: 15,
            connection_timeout: 10,
            retry_interval: 30,
            max_retry_attempts: 5,
            low_quality_resolution: String::from_str("640x480"),
            high_quality_resolution: String::from_str("1920x1080"),
            grid_size: 16,
        }
    }
}

/// The registry in whole: identities, apartments, cameras and settings.
#[derive(Debug, PartialEq)]
pub struct Config {
    pub users: Vec<User>,
    pub apartments: Vec<Apartment>,
    pub cameras: Vec<Camera>,
    pub settings: Settings,
}

/// Specification-level picture of the registry.
pub struct ConfigV {
    pub users: Seq<UserV>,
    pub apartments: Seq<ApartmentV>,
    pub cameras: Seq<CameraV>,
    pub settings: SettingsV,
}

impl View for Config {
    type V = ConfigV;

    open spec fn view(&self) -> ConfigV {
        ConfigV {
            users: self.users@.map_values(|u: User| u@),
            apartments: self.apartments@.map_values(|a: Apartment| a@),
            cameras: self.cameras@.map_values(|c: Camera| c@),
            settings: self.settings@,
        }
    }
}

impl Clone for Config {
    fn clone(&self) -> (r: Self)
        ensures
            r@ == self@,
    {
        let mut users: Vec<User> = Vec::new();
        let mut i: usize = 0;
        while i < self.users.len()
            invariant
                i <= self.users@.len(),
                users@ == self.users@.take(i as int),
            decreases self.users@.len() - i,
        {
            users.push(self.users[i].clone());
            proof {
                assert(users@ =~= self.users@.take(i + 1));
            }
            i = i + 1;
        }
        let mut apartments: Vec<Apartment> = Vec::new();
        let mut i: usize = 0;
        while i < self.apartments.len()
            invariant
                i <= self.apartments@.len(),
                apartments@ == self.apartments@.take(i as int),
            decreases self.apartments@.len() - i,
        {
            apartments.push(self.apartments[i].clone());
            proof {
                assert(apartments@ =~= self.apartments@.take(i + 1));
            }
            i = i + 1;
        }
        let mut cameras: Vec<Camera> = Vec::new();
        let mut i: usize = 0;
        while i < self.cameras.len()
            invariant
                i <= self.cameras@.len(),
                cameras@ == self.cameras@.take(i as int),
            decreases self.cameras@.len() - i,
        {
            cameras.push(self.cameras[i].clone());
            proof {
                assert(cameras@ =~= self.cameras@.take(i + 1));
            }
            i = i + 1;
        }
        let r = Config { users, apartments, cameras, settings: self.settings.clone() };
        proof {
            assert(self.users@.take(self.users@.len() as int) =~= self.users@);
            assert(self.apartments@.take(self.apartments@.len() as int) =~= self.apartments@);
            assert(self.cameras@.take(self.cameras@.len() as int) =~= self.cameras@);
        }
        r
    }
}

/// Whether some apartment in the sequence carries this display name.
pub open spec fn has_apartment(apartments: Seq<ApartmentV>, name: Seq<char>) -> bool {
    exists|i: int| 0 <= i < apartments.len() && apartments[i].apartment_name == name
}

/// The largest apartment id, 0 for an empty sequence.
pub open spec fn max_apartment_id(apartments: Seq<ApartmentV>) -> int
    decreases apartments.len(),
{
    if apartments.len() == 0 {
        0
    } else {
        let rest = max_apartment_id(apartments.drop_last());
        if apartments.last().id as int > rest {
            apartments.last().id as int
        } else {
            rest
        }
    }
}

/// The largest camera id, 0 for an empty sequence.
pub open spec fn max_camera_id(cameras: Seq<CameraV>) -> int
    decreases cameras.len(),
{
    if cameras.len() == 0 {
        0
    } else {
        let rest = max_camera_id(cameras.drop_last());
        if cameras.last().id as int > rest {
            cameras.last().id as int
        } else {
            rest
        }
    }
}

/// Whether some camera in the sequence carries this id.
pub open spec fn has_camera_id(cameras: Seq<CameraV>, id: u32) -> bool {
    exists|i: int| 0 <= i < cameras.len() && cameras[i].id == id
}

/// The cameras of one apartment that are enabled, in registry order.
pub open spec fn enabled_cameras_of(cameras: Seq<CameraV>, name: Seq<char>) -> Seq<CameraV> {
    cameras.filter(|c: CameraV| c.enabled && c.apartment_name == name)
}

/// A sequence none of whose elements satisfies the predicate filters to
/// the empty sequence.
proof fn lemma_filter_none<A>(s: Seq<A>, pred: spec_fn(A) -> bool)
    requires
        forall|i: int| 0 <= i < s.len() ==> !pred(#[trigger] s[i]),
    ensures
        s.filter(pred) == Seq::<A>::empty(),
    decreases s.len(),
{
    reveal(Seq::filter);
    if s.len() > 0 {
        lemma_filter_none(s.drop_last(), pred);
        assert(!pred(s.last()));
        assert(s.filter(pred) =~= Seq::<A>::empty());
    } else {
        assert(s.filter(pred) =~= Seq::<A>::empty());
    }
}

impl ConfigV {
    /// The registry's integrity condition: at least one apartment, at least
    /// one camera, no camera referencing a missing apartment, and non-zero
    /// time settings.
    pub open spec fn valid(self) -> bool {
        &&& self.apartments.len() > 0
        &&& self.cameras.len() > 0
        &&& forall|i: int|
            0 <= i < self.cameras.len() ==> has_apartment(
                self.apartments,
                #[trigger] self.cameras[i].apartment_name,
            )
        &&& self.settings.rotation_interval != 0
        &&& self.settings.connection_timeout != 0
    }

    /// The message `validate` reports when the registry is not valid, one
    /// per failed check, in the order the checks run.
    pub open spec fn validation_failure_message(self) -> Seq<char> {
        if self.apartments.len() == 0 {
            "at least one apartment is required"@
        } else if self.cameras.len() == 0 {
            "at least one camera is required"@
        } else if exists|i: int|
            0 <= i < self.cameras.len() && !has_apartment(
                self.apartments,
                #[trigger] self.cameras[i].apartment_name,
            ) {
            let i = first_dangling_index(self.apartments, self.cameras);
            dangling_message(self.cameras[i].camera_name, self.cameras[i].apartment_name)
        } else if self.settings.rotation_interval == 0 {
            "rotation interval must be greater than 0"@
        } else {
            "connection timeout must be greater than 0"@
        }
    }

}

/// The index of the first camera referencing a missing apartment (the
/// length of the sequence when none does).
pub open spec fn first_dangling_index(
    apartments: Seq<ApartmentV>,
    cameras: Seq<CameraV>,
) -> int
    decreases cameras.len(),
{
    if cameras.len() == 0 {
        0
    } else if !has_apartment(apartments, cameras[0].apartment_name) {
        0
    } else {
        1 + first_dangling_index(apartments, cameras.drop_first())
    }
}

/// A camera at `i` whose apartment reference dangles, with every camera
/// before it intact, is the first dangling one.
proof fn lemma_first_dangling_at(apartments: Seq<ApartmentV>, cameras: Seq<CameraV>, i: int)
    requires
        0 <= i < cameras.len(),
        !has_apartment(apartments, cameras[i].apartment_name),
        forall|j: int|
            0 <= j < i ==> has_apartment(apartments, #[trigger] cameras[j].apartment_name),
    ensures
        first_dangling_index(apartments, cameras) == i,
    decreases i,
{
    if i == 0 {
    } else {
        assert(has_apartment(apartments, cameras[0].apartment_name));
        assert(cameras.drop_first()[i - 1] == cameras[i]);
        assert forall|j: int| 0 <= j < i - 1 implies has_apartment(
            apartments,
            #[trigger] cameras.drop_first()[j].apartment_name,
        ) by {
            assert(cameras.drop_first()[j] == cameras[j + 1]);
        }
        lemma_first_dangling_at(apartments, cameras.drop_first(), i - 1);
    }
}

/// The message naming a camera whose apartment reference dangles.
pub open spec fn dangling_message(camera_name: Seq<char>, apartment_name: Seq<char>) -> Seq<char> {
    "camera '"@ + camera_name + "' references unknown apartment '"@ + apartment_name + "'"@
}

/// The default apartments a fresh registry holds.
pub open spec fn spec_default_apartments() -> Seq<ApartmentV> {
    seq![
        ApartmentV { id: 1, apartment_name: "Квартира на Пушкина"@, apartment_number: "12А"@ },
        ApartmentV { id: 2, apartment_name: "Квартира на Ленина"@, apartment_number: "34Б"@ },
        ApartmentV { id: 3, apartment_name: "Квартира на Советской"@, apartment_number: "56В"@ },
    ]
}

/// The default cameras a fresh registry holds.
pub open spec fn spec_default_cameras() -> Seq<CameraV> {
    seq![
        CameraV {
            id: 1,
            camera_name: "Прихожая"@,
            apartment_name: "Квартира на Пушкина"@,
            rtsp_link: "rtsp://192.168.1.100:554/stream1"@,
            enabled: true,
        },
        CameraV {
            id: 2,
            camera_name: "Гостиная"@,
            apartment_name: "Квартира на Пушкина"@,
            rtsp_link: "rtsp://192.168.1.101:554/stream1"@,
            enabled: true,
        },
        CameraV {
            id: 3,
            camera_name: "Кухня"@,
            apartment_name: "Квартира на Пушкина"@,
            rtsp_link: "rtsp://192.168.1.102:554/stream1"@,
            enabled: true,
        },
        CameraV {
            id: 4,
            camera_name: "Спальня"@,
            apartment_name: "Квартира на Ленина"@,
            rtsp_link: "rtsp://192.168.1.200:554/stream1"@,
            enabled: true,
        },
        CameraV {
            id: 5,
            camera_name: "Балкон"@,
            apartment_name: "Квартира на Ленина"@,
            rtsp_link: "rtsp://192.168.1.201:554/stream1"@,
            enabled: true,
        },
    ]
}

/// The registry value a fresh store starts from.
pub open spec fn spec_default_config() -> ConfigV {
    ConfigV {
        users: Seq::empty(),
        apartments: spec_default_apartments(),
        cameras: spec_default_cameras(),
        settings: spec_default_settings(),
    }
}

impl Default for Config {
    fn default() -> (r: Self)
        ensures
            r@ == spec_default_config(),
    {
        let r = Config {
            users: Vec::new(),
            apartments: Config::default_apartments(),
            cameras: Config::default_cameras(),
            settings: Settings::default(),
        };
        proof {
            assert(r@.users =~= spec_default_config().users);
        }
        r
    }
}

impl Config {
    /// A fresh registry holding the default apartments and cameras.
    pub fn new() -> (r: Self)
        ensures
            r@ == spec_default_config(),
    {
        Self::default()
    }

    /// A registry for exercising the store without external state: the same
    /// defaults, with identities left to the credential store.
    pub fn new_test() -> (r: Self)
        ensures
            r@ == spec_default_config(),
    {
        let r = Config {
            users: Vec::new(),
            apartments: Self::default_apartments(),
            cameras: Self::default_cameras(),
            settings: Settings::default(),
        };
        proof {
            assert(r@.users =~= spec_default_config().users);
        }
        r
    }

    /// The default apartments.
    fn default_apartments() -> (r: Vec<Apartment>)
        ensures
            r@.map_values(|a: Apartment| a@) == spec_default_apartments(),
    {
        let mut v: Vec<Apartment> = Vec::new();
        v.push(
            Apartment {
                id: 1,
                apartment_name: String::from_str("Квартира на Пушкина"),
                apartment_number: String::from_str("12А"),
            },
        );
        v.push(
            Apartment {
                id: 2,
                apartment_name: String::from_str("Квартира на Ленина"),
                apartment_number: String::from_str("34Б"),
            },
        );
        v.push(
            Apartment {
                id: 3,
                apartment_name: String::from_str("Квартира на Советской"),
                apartment_number: String::from_str("56В"),
            },
        );
        proof {
            assert(v@.map_values(|a: Apartment| a@) =~= spec_default_apartments());
        }
        v
    }

    /// The default cameras.
    fn default_cameras() -> (r: Vec<Camera>)
        ensures
            r@.map_values(|c: Camera| c@) == spec_default_cameras(),
    {
        let mut v: Vec<Camera> = Vec::new();
        v.push(
            Camera {
                id: 1,
                camera_name: String::from_str("Прихожая"),
                apartment_name: String::from_str("Квартира на Пушкина"),
                rtsp_link: String::from_str("rtsp://192.168.1.100:554/stream1"),
                enabled: true,
            },
        );
        v.push(
            Camera {
                id: 2,
                camera_name: String::from_str("Гостиная"),
                apartment_name: String::from_str("Квартира на Пушкина"),
                rtsp_link: String::from_str("rtsp://192.168.1.101:554/stream1"),
                enabled: true,
            },
        );
        v.push(
            Camera {
                id: 3,
                camera_name: String::from_str("Кухня"),
                apartment_name: String::from_str("Квартира на Пушкина"),
                rtsp_link: String::from_str("rtsp://192.168.1.102:554/stream1"),
                enabled: true,
            },
        );
        v.push(
            Camera {
                id: 4,
                camera_name: String::from_str("Спальня"),
                apartment_name: String::from_str("Квартира на Ленина"),
                rtsp_link: String::from_str("rtsp://192.168.1.200:554/stream1"),
                enabled: true,
            },
        );
        v.push(
            Camera {
                id: 5,
                camera_name: String::from_str("Балкон"),
                apartment_name: String::from_str("Квартира на Ленина"),
                rtsp_link: String::from_str("rtsp://192.168.1.201:554/stream1"),
                enabled: true,
            },
        );
        proof {
            assert(v@.map_values(|c: Camera| c@) =~= spec_default_cameras());
        }
        v
    }

    /// The index of the first apartment carrying `name`, if any.
    fn find_apartment(&self, name: &str) -> (r: Option<usize>)
        ensures
            match r {
                Some(i) => i < self@.apartments.len() && self@.apartments[i as int].apartment_name
                    == name@ && has_apartment(self@.apartments, name@),
                None => !has_apartment(self@.apartments, name@),
            },
    {
        let mut i: usize = 0;
        while i < self.apartments.len()
            invariant
                i <= self@.apartments.len(),
                self@.apartments.len() == self.apartments@.len(),
                forall|j: int| 0 <= j < i ==> self@.apartments[j].apartment_name != name@,
            decreases self@.apartments.len() - i,
        {
            if str_eq(self.apartments[i].apartment_name.as_str(), name) {
                proof {
                    assert(self@.apartments[i as int] == self.apartments@[i as int]@);
                    assert(self@.apartments[i as int].apartment_name == name@);
                }
                return Some(i);
            }
            i = i + 1;
        }
        None
    }

    /// The index of the first camera carrying `id`, if any.
    fn find_camera(&self, camera_id: u32) -> (r: Option<usize>)
        ensures
            match r {
                Some(i) => i < self@.cameras.len() && self@.cameras[i as int].id == camera_id && (
                forall|j: int| 0 <= j < i ==> self@.cameras[j].id != camera_id) && has_camera_id(
                    self@.cameras,
                    camera_id,
                ),
                None => !has_camera_id(self@.cameras, camera_id),
            },
    {
        let mut i: usize = 0;
        while i < self.cameras.len()
            invariant
                i <= self@.cameras.len(),
                self@.cameras.len() == self.cameras@.len(),
                forall|j: int| 0 <= j < i ==> self@.cameras[j].id != camera_id,
            decreases self@.cameras.len() - i,
        {
            if self.cameras[i].id == camera_id {
                return Some(i);
            }
            i = i + 1;
        }
        None
    }

    /// The enabled cameras of the apartment named `apartment_name`, in
    /// registry order.
    pub fn get_cameras_by_apartment(&self, apartment_name: &str) -> (r: Vec<&Camera>)
        ensures
            r@.map_values(|c: &Camera| c@) == enabled_cameras_of(self@.cameras, apartment_name@),
    {
        broadcast use group_seq_properties, group_seq_lib_default;

        let mut out: Vec<&Camera> = Vec::new();
        let mut i: usize = 0;
        while i < self.cameras.len()
            invariant
                i <= self.cameras@.len(),
                self@.cameras.len() == self.cameras@.len(),
                out@.map_values(|c: &Camera| c@) == self@.cameras.take(i as int).filter(
                    |c: CameraV| c.enabled && c.apartment_name == apartment_name@,
                ),
            decreases self.cameras@.len() - i,
        {
            let ghost prefix = self@.cameras.take(i as int);
            let camera = &self.cameras[i];
            if camera.enabled && str_eq(camera.apartment_name.as_str(), apartment_name) {
                out.push(camera);
            }
            proof {
                assert(self@.cameras.take(i + 1) =~= prefix.push(self@.cameras[i as int]));
                reveal_with_fuel(Seq::filter, 2);
                assert(prefix.push(self@.cameras[i as int]).drop_last() =~= prefix);
                if camera.enabled && camera.apartment_name@ == apartment_name@ {
                    assert(out@.map_values(|c: &Camera| c@) =~= self@.cameras.take(i + 1).filter(
                        |c: CameraV| c.enabled && c.apartment_name == apartment_name@,
                    ));
                } else {
                    assert(out@.map_values(|c: &Camera| c@) =~= self@.cameras.take(i + 1).filter(
                        |c: CameraV| c.enabled && c.apartment_name == apartment_name@,
                    ));
                }
            }
            i = i + 1;
        }
        proof {
            assert(self@.cameras.take(self@.cameras.len() as int) =~= self@.cameras);
        }
        out
    }

    /// All enabled cameras, grouped by apartment name.  Every group is
    /// non-empty and holds exactly the enabled cameras of its apartment in
    /// registry order; apartments with no enabled camera are omitted.
    pub fn get_cameras_grouped_by_apartments(&self) -> (r: Vec<(String, Vec<Camera>)>)
        ensures
            forall|k: int|
                0 <= k < r@.len() ==> (#[trigger] r@[k].1)@.map_values(|c: Camera| c@)
                    == enabled_cameras_of(self@.cameras, r@[k].0@) && r@[k].1@.len() > 0,
            forall|k1: int, k2: int| 0 <= k1 < k2 < r@.len() ==> r@[k1].0@ != r@[k2].0@,
            forall|i: int|
                0 <= i < self@.cameras.len() && (#[trigger] self@.cameras[i]).enabled
                    ==> exists|k: int| 0 <= k < r@.len() && r@[k].0@ == self@.cameras[i].apartment_name,
    {
        broadcast use group_seq_properties, group_seq_lib_default;

        let mut out: Vec<(String, Vec<Camera>)> = Vec::new();
        let mut i: usize = 0;
        while i < self.cameras.len()
            invariant
                i <= self.cameras@.len(),
                self@.cameras.len() == self.cameras@.len(),
                forall|k: int|
                    0 <= k < out@.len() ==> (#[trigger] out@[k].1)@.map_values(|c: Camera| c@)
                        == enabled_cameras_of(self@.cameras.take(i as int), out@[k].0@)
                        && out@[k].1@.len() > 0,
                forall|k1: int, k2: int| 0 <= k1 < k2 < out@.len() ==> out@[k1].0@ != out@[k2].0@,
                forall|j: int|
                    0 <= j < i && (#[trigger] self@.cameras[j]).enabled ==> exists|k: int|
                        0 <= k < out@.len() && out@[k].0@ == self@.cameras[j].apartment_name,
            decreases self.cameras@.len() - i,
        {
            let ghost prefix = self@.cameras.take(i as int);
            let ghost out0 = out@;
            let ghost cam = self@.cameras[i as int];
            let ghost pred = |c: CameraV| c.enabled && c.apartment_name == cam.apartment_name;
            proof {
                assert(self@.cameras.take(i + 1) =~= prefix + seq![cam]);
                reveal_with_fuel(Seq::filter, 2);
                assert(seq![cam].drop_last() =~= Seq::<CameraV>::empty());
            }
            let camera = &self.cameras[i];
            if camera.enabled {
                let mut k: usize = 0;
                let mut found = false;
                while k < out.len() && !found
                    invariant
                        k <= out@.len(),
                        out@ == out0,
                        cam == self@.cameras[i as int],
                        i < self@.cameras.len(),
                        self@.cameras.len() == self.cameras@.len(),
                        !found ==> forall|m: int| 0 <= m < k ==> out@[m].0@ != cam.apartment_name,
                        found ==> k < out@.len() && out@[k as int].0@ == cam.apartment_name,
                    decreases out@.len() - k, (if found { 0int } else { 1int }),
                {
                    if str_eq(out[k].0.as_str(), self.cameras[i].apartment_name.as_str()) {
                        found = true;
                    } else {
                        k = k + 1;
                    }
                }
                if found {
                    out[k].1.push(self.cameras[i].clone());
                    proof {
                        assert(out@[k as int].0 == out0[k as int].0);
                        assert(out@[k as int].1@ =~= out0[k as int].1@.push(
                            out@[k as int].1@.last(),
                        ));
                        assert(out@[k as int].1@.last()@ == cam);
                        assert forall|m: int| 0 <= m < out@.len() && m != k implies out@[m]
                            == out0[m] by {}
                        assert forall|k2: int| 0 <= k2 < out@.len() implies (#[trigger] out@[k2].1)@.map_values(|c: Camera| c@) == enabled_cameras_of(
                            self@.cameras.take(i + 1),
                            out@[k2].0@,
                        ) && out@[k2].1@.len() > 0 by {
                            let p2 = |c: CameraV| c.enabled && c.apartment_name == out@[k2].0@;
                            assert(enabled_cameras_of(self@.cameras.take(i + 1), out@[k2].0@)
                                == prefix.filter(p2) + seq![cam].filter(p2));
                            if k2 == k {
                                assert(seq![cam].filter(p2) =~= seq![cam]);
                                assert(out@[k2].1@.map_values(|c: Camera| c@) =~= out0[k2].1@.map_values(|c: Camera| c@).push(cam));
                            } else {
                                assert(out@[k2].0@ != cam.apartment_name);
                                assert(seq![cam].filter(p2) =~= Seq::<CameraV>::empty());
                                assert(out@[k2].1@.map_values(|c: Camera| c@)
                                    =~= enabled_cameras_of(
                                    self@.cameras.take(i + 1),
                                    out@[k2].0@,
                                ));
                            }
                        }
                        assert forall|j: int|
                            0 <= j < i + 1 && (#[trigger] self@.cameras[j]).enabled implies exists|
                            m: int,
                        | 0 <= m < out@.len() && out@[m].0@ == self@.cameras[j].apartment_name by {
                            if j < i {
                                let m = choose|m: int|
                                    0 <= m < out0.len() && out0[m].0@
                                        == self@.cameras[j].apartment_name;
                                assert(out@[m].0@ == self@.cameras[j].apartment_name);
                            } else {
                                assert(out@[k as int].0@ == self@.cameras[j].apartment_name);
                            }
                        }
                    }
                } else {
                    let mut group: Vec<Camera> = Vec::new();
                    group.push(self.cameras[i].clone());
                    out.push((self.cameras[i].apartment_name.clone(), group));
                    proof {
                        assert(out@ =~= out0.push(out@.last()));
                        assert(out@.last().0@ == cam.apartment_name);
                        assert(out@.last().1@.map_values(|c: Camera| c@) =~= seq![cam]);
                        assert(prefix.filter(pred) =~= Seq::<CameraV>::empty()) by {
                            assert forall|j: int| 0 <= j < prefix.len() implies !pred(
                                #[trigger] prefix[j],
                            ) by {
                                if prefix[j].enabled && prefix[j].apartment_name
                                    == cam.apartment_name {
                                    assert(self@.cameras[j].enabled);
                                    let m = choose|m: int|
                                        0 <= m < out0.len() && out0[m].0@
                                            == self@.cameras[j].apartment_name;
                                    assert(out0[m].0@ == cam.apartment_name);
                                }
                            }
                            lemma_filter_none(prefix, pred);
                        }
                        assert forall|k2: int| 0 <= k2 < out@.len() implies (#[trigger] out@[k2].1)@.map_values(|c: Camera| c@) == enabled_cameras_of(
                            self@.cameras.take(i + 1),
                            out@[k2].0@,
                        ) && out@[k2].1@.len() > 0 by {
                            let p2 = |c: CameraV| c.enabled && c.apartment_name == out@[k2].0@;
                            assert(enabled_cameras_of(self@.cameras.take(i + 1), out@[k2].0@)
                                == prefix.filter(p2) + seq![cam].filter(p2));
                            if k2 == out0.len() {
                                assert(seq![cam].filter(p2) =~= seq![cam]);
                                assert(out@[k2].1@.map_values(|c: Camera| c@) =~= prefix.filter(p2)
                                    + seq![cam].filter(p2));
                            } else {
                                assert(out@[k2] == out0[k2]);
                                assert(out@[k2].0@ != cam.apartment_name);
                                assert(seq![cam].filter(p2) =~= Seq::<CameraV>::empty());
                                assert(out@[k2].1@.map_values(|c: Camera| c@)
                                    =~= enabled_cameras_of(
                                    self@.cameras.take(i + 1),
                                    out@[k2].0@,
                                ));
                            }
                        }
                        assert forall|j: int|
                            0 <= j < i + 1 && (#[trigger] self@.cameras[j]).enabled implies exists|
                            m: int,
                        | 0 <= m < out@.len() && out@[m].0@ == self@.cameras[j].apartment_name by {
                            if j < i {
                                let m = choose|m: int|
                                    0 <= m < out0.len() && out0[m].0@
                                        == self@.cameras[j].apartment_name;
                                assert(out@[m].0@ == self@.cameras[j].apartment_name);
                            } else {
                                assert(out@[out0.len() as int].0@
                                    == self@.cameras[j].apartment_name);
                            }
                        }
                    }
                }
            } else {
                proof {
                    assert forall|k2: int| 0 <= k2 < out@.len() implies (#[trigger] out@[k2].1)@.map_values(|c: Camera| c@) == enabled_cameras_of(
                        self@.cameras.take(i + 1),
                        out@[k2].0@,
                    ) && out@[k2].1@.len() > 0 by {
                        let p2 = |c: CameraV| c.enabled && c.apartment_name == out@[k2].0@;
                        assert(enabled_cameras_of(self@.cameras.take(i + 1), out@[k2].0@)
                            == prefix.filter(p2) + seq![cam].filter(p2));
                        assert(seq![cam].filter(p2) =~= Seq::<CameraV>::empty());
                        assert(out@[k2].1@.map_values(|c: Camera| c@) =~= enabled_cameras_of(
                            self@.cameras.take(i + 1),
                            out@[k2].0@,
                        ));
                    }
                }
            }
            i = i + 1;
        }
        proof {
            assert(self@.cameras.take(self@.cameras.len() as int) =~= self@.cameras);
        }
        out
    }

    /// Adds an apartment under a fresh display name, assigning the next id.
    /// Fails when the name is taken; the registry is unchanged on failure.
    pub fn add_apartment(&mut self, apartment_name: String, apartment_number: String) -> (r: Result<
        u32,
        SurveillanceError,
    >)
        requires
            !has_apartment(old(self)@.apartments, apartment_name@) ==> max_apartment_id(
                old(self)@.apartments,
            ) < u32::MAX,
        ensures
            has_apartment(old(self)@.apartments, apartment_name@) ==> (r matches Err(e) && e matches
                SurveillanceError::ConfigError { message } && message@
                == "an apartment with this name already exists"@ && final(self)@ == old(self)@),
            !has_apartment(old(self)@.apartments, apartment_name@) ==> (r matches Ok(id) && id
                == max_apartment_id(old(self)@.apartments) + 1 && final(self)@.apartments == old(self)@.apartments.push(
                ApartmentV { id, apartment_name: apartment_name@, apartment_number: apartment_number@ },
            ) && final(self)@.cameras == old(self)@.cameras && final(self)@.users == old(self)@.users && final(self)@.settings == old(self)@.settings),
    {
        if self.find_apartment(apartment_name.as_str()).is_some() {
            return Err(SurveillanceError::config_error("an apartment with this name already exists"));
        }
        let id = self.max_apartment_id_exec() + 1;
        let apartment = Apartment { id, apartment_name, apartment_number };
        let ghost av = apartment@;
        self.apartments.push(apartment);
        proof {
            assert(self@.apartments =~= old(self)@.apartments.push(av));
        }
        Ok(id)
    }

    /// The largest apartment id in the registry, 0 when there are none.
    fn max_apartment_id_exec(&self) -> (r: u32)
        ensures
            r == max_apartment_id(self@.apartments),
    {
        let mut best: u32 = 0;
        let mut i: usize = 0;
        while i < self.apartments.len()
            invariant
                i <= self@.apartments.len(),
                self@.apartments.len() == self.apartments@.len(),
                best == max_apartment_id(self@.apartments.take(i as int)),
            decreases self@.apartments.len() - i,
        {
            let ghost prefix = self@.apartments.take(i as int);
            if self.apartments[i].id > best {
                best = self.apartments[i].id;
            }
            proof {
                assert(self@.apartments.take(i + 1).drop_last() =~= prefix);
            }
            i = i + 1;
        }
        proof {
            assert(self@.apartments.take(self@.apartments.len() as int) =~= self@.apartments);
        }
        best
    }

    /// The largest camera id in the registry, 0 when there are none.
    fn max_camera_id_exec(&self) -> (r: u32)
        ensures
            r == max_camera_id(self@.cameras),
    {
        let mut best: u32 = 0;
        let mut i: usize = 0;
        while i < self.cameras.len()
            invariant
                i <= self@.cameras.len(),
                self@.cameras.len() == self.cameras@.len(),
                best == max_camera_id(self@.cameras.take(i as int)),
            decreases self@.cameras.len() - i,
        {
            let ghost prefix = self@.cameras.take(i as int);
            if self.cameras[i].id > best {
                best = self.cameras[i].id;
            }
            proof {
                assert(self@.cameras.take(i + 1).drop_last() =~= prefix);
            }
            i = i + 1;
        }
        proof {
            assert(self@.cameras.take(self@.cameras.len() as int) =~= self@.cameras);
        }
        best
    }

    /// Adds a camera attached to an existing apartment, assigning the next
    /// id; new cameras start enabled.  Fails when no apartment carries
    /// `apartment_name`; the registry is unchanged on failure.
    pub fn add_camera(&mut self, camera_name: String, apartment_name: String, rtsp_link: String) -> (r:
        Result<u32, SurveillanceError>)
        requires
            has_apartment(old(self)@.apartments, apartment_name@) ==> max_camera_id(
                old(self)@.cameras,
            ) < u32::MAX,
        ensures
            !has_apartment(old(self)@.apartments, apartment_name@) ==> (r matches Err(e) && e matches
                SurveillanceError::ConfigError { message } && message@ == "apartment not found"@
                && final(self)@ == old(self)@),
            has_apartment(old(self)@.apartments, apartment_name@) ==> (r matches Ok(id) && id
                == max_camera_id(old(self)@.cameras) + 1 && final(self)@.cameras == old(self)@.cameras.push(
                CameraV {
                    id,
                    camera_name: camera_name@,
                    apartment_name: apartment_name@,
                    rtsp_link: rtsp_link@,
                    enabled: true,
                },
            ) && final(self)@.apartments == old(self)@.apartments && final(self)@.users == old(self)@.users && final(self)@.settings == old(self)@.settings),
    {
        if self.find_apartment(apartment_name.as_str()).is_none() {
            return Err(SurveillanceError::config_error("apartment not found"));
        }
        let id = self.max_camera_id_exec() + 1;
        let camera = Camera { id, camera_name, apartment_name, rtsp_link, enabled: true };
        let ghost cv = camera@;
        self.cameras.push(camera);
        proof {
            assert(self@.cameras =~= old(self)@.cameras.push(cv));
        }
        Ok(id)
    }

    /// Removes every camera carrying `camera_id` (at most one, once ids are
    /// assigned by the store).  Fails when no camera carries it; the
    /// registry is unchanged on failure.
    pub fn remove_camera(&mut self, camera_id: u32) -> (r: Result<(), SurveillanceError>)
        ensures
            !has_camera_id(old(self)@.cameras, camera_id) ==> (r matches Err(e) && e matches
                SurveillanceError::ConfigError { message } && message@ == "camera not found"@
                && final(self)@ == old(self)@),
            has_camera_id(old(self)@.cameras, camera_id) ==> (r matches Ok(()) && final(self)@.cameras == old(self)@.cameras.filter(|c: CameraV| c.id != camera_id) && final(self)@.apartments == old(self)@.apartments && final(self)@.users == old(self)@.users
                && final(self)@.settings == old(self)@.settings),
    {
        broadcast use group_seq_properties, group_seq_lib_default;

        let mut kept: Vec<Camera> = Vec::new();
        let mut i: usize = 0;
        let mut removed_any = false;
        while i < self.cameras.len()
            invariant
                i <= self@.cameras.len(),
                self@.cameras.len() == self.cameras@.len(),
                kept@.map_values(|c: Camera| c@) == self@.cameras.take(i as int).filter(
                    |c: CameraV| c.id != camera_id,
                ),
                removed_any == exists|j: int|
                    0 <= j < i && (#[trigger] self@.cameras[j]).id == camera_id,
            decreases self@.cameras.len() - i,
        {
            let ghost prefix = self@.cameras.take(i as int);
            let camera = &self.cameras[i];
            if camera.id != camera_id {
                kept.push(camera.clone());
            } else {
                removed_any = true;
            }
            proof {
                assert(self@.cameras.take(i + 1) =~= prefix.push(self@.cameras[i as int]));
                reveal_with_fuel(Seq::filter, 2);
                assert(prefix.push(self@.cameras[i as int]).drop_last() =~= prefix);
                assert(kept@.map_values(|c: Camera| c@) =~= self@.cameras.take(i + 1).filter(
                    |c: CameraV| c.id != camera_id,
                ));
            }
            i = i + 1;
        }
        proof {
            assert(self@.cameras.take(self@.cameras.len() as int) =~= self@.cameras);
        }
        if !removed_any {
            return Err(SurveillanceError::config_error("camera not found"));
        }
        self.cameras = kept;
        Ok(())
    }

    /// Applies the present fields to the camera carrying `camera_id`: its
    /// name, its apartment reference (which must name an existing
    /// apartment), and its URI, each independently optional.  Fails without
    /// touching the camera when the id is unknown or the new apartment
    /// reference dangles.
    pub fn update_camera(
        &mut self,
        camera_id: u32,
        camera_name: Option<String>,
        apartment_name: Option<String>,
        rtsp_link: Option<String>,
    ) -> (r: Result<(), SurveillanceError>)
        ensures
            !has_camera_id(old(self)@.cameras, camera_id) ==> (r matches Err(e) && e matches
                SurveillanceError::ConfigError { message } && message@ == "camera not found"@
                && final(self)@ == old(self)@),
            has_camera_id(old(self)@.cameras, camera_id) && (apartment_name matches Some(n)
                && !has_apartment(old(self)@.apartments, n@)) ==> (r matches Err(e) && e matches
                SurveillanceError::ConfigError { message } && message@ == "apartment not found"@
                && final(self)@ == old(self)@),
            has_camera_id(old(self)@.cameras, camera_id) && (apartment_name matches Some(n)
                ==> has_apartment(old(self)@.apartments, n@)) ==> (r matches Ok(()) && exists|i: int|
                {
                    let cam = old(self)@.cameras[i];
                    &&& 0 <= i < old(self)@.cameras.len()
                    &&& #[trigger] old(self)@.cameras[i].id == camera_id
                    &&& (forall|j: int| 0 <= j < i ==> old(self)@.cameras[j].id != camera_id)
                    &&& final(self)@.cameras == old(self)@.cameras.update(
                        i,
                        CameraV {
                            id: cam.id,
                            camera_name: match camera_name {
                                Some(n) => n@,
                                None => cam.camera_name,
                            },
                            apartment_name: match apartment_name {
                                Some(n) => n@,
                                None => cam.apartment_name,
                            },
                            rtsp_link: match rtsp_link {
                                Some(n) => n@,
                                None => cam.rtsp_link,
                            },
                            enabled: cam.enabled,
                        },
                    )
                } && final(self)@.apartments == old(self)@.apartments && final(self)@.users == old(self)@.users && final(self)@.settings == old(self)@.settings),
    {
        let i = match self.find_camera(camera_id) {
            Some(i) => i,
            None => {
                return Err(SurveillanceError::config_error("camera not found"));
            },
        };
        let apartment_name = match apartment_name {
            Some(name) => {
                if self.find_apartment(name.as_str()).is_none() {
                    return Err(SurveillanceError::config_error("apartment not found"));
                }
                Some(name)
            },
            None => None,
        };
        let ghost cam0 = self@.cameras[i as int];
        if let Some(name) = camera_name {
            self.cameras[i].camera_name = name;
        }
        if let Some(name) = apartment_name {
            self.cameras[i].apartment_name = name;
        }
        if let Some(link) = rtsp_link {
            self.cameras[i].rtsp_link = link;
        }
        proof {
            assert(self@.cameras =~= old(self)@.cameras.update(i as int, self@.cameras[i as int]));
        }
        Ok(())
    }

    /// Flips the enabled flag of the camera carrying `camera_id` and returns
    /// the new value, leaving every other field and camera unchanged.  Fails
    /// when the id is unknown.
    pub fn toggle_camera(&mut self, camera_id: u32) -> (r: Result<bool, SurveillanceError>)
        ensures
            !has_camera_id(old(self)@.cameras, camera_id) ==> (r matches Err(e) && e matches
                SurveillanceError::ConfigError { message } && message@ == "camera not found"@
                && final(self)@ == old(self)@),
            has_camera_id(old(self)@.cameras, camera_id) ==> exists|i: int|
                {
                    let cam = old(self)@.cameras[i];
                    &&& 0 <= i < old(self)@.cameras.len()
                    &&& #[trigger] old(self)@.cameras[i].id == camera_id
                    &&& (forall|j: int| 0 <= j < i ==> old(self)@.cameras[j].id != camera_id)
                    &&& r matches Ok(b) && b == !cam.enabled
                    &&& final(self)@.cameras == old(self)@.cameras.update(
                        i,
                        CameraV {
                            id: cam.id,
                            camera_name: cam.camera_name,
                            apartment_name: cam.apartment_name,
                            rtsp_link: cam.rtsp_link,
                            enabled: !cam.enabled,
                        },
                    )
                } && final(self)@.apartments == old(self)@.apartments && final(self)@.users
                == old(self)@.users && final(self)@.settings == old(self)@.settings,
    {
        let i = match self.find_camera(camera_id) {
            Some(i) => i,
            None => {
                return Err(SurveillanceError::config_error("camera not found"));
            },
        };
        let new_state = !self.cameras[i].enabled;
        self.cameras[i].enabled = new_state;
        proof {
            assert(self@.cameras =~= old(self)@.cameras.update(i as int, self@.cameras[i as int]));
        }
        Ok(new_state)
    }

    /// The display names of all apartments, in registry order.
    pub fn get_apartment_names(&self) -> (r: Vec<String>)
        ensures
            r@.len() == self@.apartments.len(),
            forall|i: int| 0 <= i < r@.len() ==> r@[i]@ == self@.apartments[i].apartment_name,
    {
        let mut out: Vec<String> = Vec::new();
        let mut i: usize = 0;
        while i < self.apartments.len()
            invariant
                i <= self@.apartments.len(),
                self@.apartments.len() == self.apartments@.len(),
                out@.len() == i,
                forall|j: int| 0 <= j < i ==> out@[j]@ == self@.apartments[j].apartment_name,
            decreases self@.apartments.len() - i,
        {
            out.push(self.apartments[i].apartment_name.clone());
            i = i + 1;
        }
        out
    }

    /// Checks the registry's integrity: at least one apartment, at least one
    /// camera, every camera referencing an existing apartment, and non-zero
    /// rotation interval and connection timeout.  On failure the error names
    /// the first failed check — for a dangling reference, the offending
    /// camera and its missing apartment.
    pub fn validate(&self) -> (r: Result<(), SurveillanceError>)
        ensures
            match r {
                Ok(()) => self@.valid(),
                Err(e) => !self@.valid() && (e matches SurveillanceError::ConfigError { message }
                    && message@ == self@.validation_failure_message()),
            },
    {
        if self.apartments.len() == 0 {
            return Err(SurveillanceError::config_error("at least one apartment is required"));
        }
        if self.cameras.len() == 0 {
            return Err(SurveillanceError::config_error("at least one camera is required"));
        }
        let mut i: usize = 0;
        while i < self.cameras.len()
            invariant
                i <= self@.cameras.len(),
                self@.cameras.len() == self.cameras@.len(),
                self@.apartments.len() == self.apartments@.len(),
                self@.apartments.len() != 0,
                self@.cameras.len() != 0,
                forall|j: int|
                    0 <= j < i ==> has_apartment(
                        self@.apartments,
                        #[trigger] self@.cameras[j].apartment_name,
                    ),
            decreases self@.cameras.len() - i,
        {
            let camera = &self.cameras[i];
            if self.find_apartment(camera.apartment_name.as_str()).is_none() {
                proof {
                    assert(self@.cameras[i as int] == self.cameras@[i as int]@);
                    assert(camera.apartment_name@ == self@.cameras[i as int].apartment_name);
                    assert(!has_apartment(self@.apartments, self@.cameras[i as int].apartment_name));
                }
                let mut message = String::from_str("camera '");
                message.append(camera.camera_name.as_str());
                message.append("' references unknown apartment '");
                message.append(camera.apartment_name.as_str());
                message.append("'");
                proof {
                    lemma_first_dangling_at(self@.apartments, self@.cameras, i as int);
                    assert(!self@.valid());
                    assert(self@.apartments.len() != 0);
                    assert(self@.cameras.len() != 0);
                    assert(exists|j: int|
                        0 <= j < self@.cameras.len() && !has_apartment(
                            self@.apartments,
                            #[trigger] self@.cameras[j].apartment_name,
                        )) by {
                        assert((i as int) < self@.cameras.len() && !has_apartment(
                            self@.apartments,
                            self@.cameras[i as int].apartment_name,
                        ));
                    }
                    assert(camera.camera_name@ == self@.cameras[i as int].camera_name);
                    assert(message@ =~= dangling_message(
                        self@.cameras[i as int].camera_name,
                        self@.cameras[i as int].apartment_name,
                    ));
                    assert(self@.validation_failure_message() == dangling_message(
                        self@.cameras[i as int].camera_name,
                        self@.cameras[i as int].apartment_name,
                    ));
                }
                return Err(SurveillanceError::ConfigError { message });
            }
            i = i + 1;
        }
        if self.settings.rotation_interval == 0 {
            return Err(SurveillanceError::config_error("rotation interval must be greater than 0"));
        }
        if self.settings.connection_timeout == 0 {
            return Err(SurveillanceError::config_error("connection timeout must be greater than 0"));
        }
        Ok(())
    }
}

/// Law: flipping a camera's enabled flag twice restores the registry's
/// cameras exactly — every other field and every other camera is left as
/// it was, and the flag returns to its first value.
pub proof fn lemma_toggle_twice_restores(cameras: Seq<CameraV>, i: int)
    ensures
        0 <= i < cameras.len() ==> ({
            let cam = cameras[i];
            let flipped = CameraV {
                id: cam.id,
                camera_name: cam.camera_name,
                apartment_name: cam.apartment_name,
                rtsp_link: cam.rtsp_link,
                enabled: !cam.enabled,
            };
            let once = cameras.update(i, flipped);
            let back = CameraV {
                id: flipped.id,
                camera_name: flipped.camera_name,
                apartment_name: flipped.apartment_name,
                rtsp_link: flipped.rtsp_link,
                enabled: !flipped.enabled,
            };
            once.update(i, back) == cameras
        }),
{
    if 0 <= i < cameras.len() {
        let cam = cameras[i];
        let flipped = CameraV {
            id: cam.id,
            camera_name: cam.camera_name,
            apartment_name: cam.apartment_name,
            rtsp_link: cam.rtsp_link,
            enabled: !cam.enabled,
        };
        let once = cameras.update(i, flipped);
        let back = CameraV {
            id: flipped.id,
            camera_name: flipped.camera_name,
            apartment_name: flipped.apartment_name,
            rtsp_link: flipped.rtsp_link,
            enabled: !flipped.enabled,
        };
        assert(back == cam);
        assert(once.update(i, back) =~= cameras);
    }
}

/// The configuration store: owns the registry and the remote-sync
/// connection parameters.
pub struct ConfigManager {
    config: Config,
    nextcloud_url: Option<String>,
    nextcloud_user: Option<String>,
    nextcloud_password: Option<String>,
}

impl ConfigManager {
    /// The registry the store currently owns.
    pub closed spec fn spec_config(&self) -> Config {
        self.config
    }

    /// The configured remote address, if any.
    pub closed spec fn spec_nextcloud_url(&self) -> Option<String> {
        self.nextcloud_url
    }

    /// The configured remote account, if any.
    pub closed spec fn spec_nextcloud_user(&self) -> Option<String> {
        self.nextcloud_user
    }

    /// The configured remote secret, if any.
    pub closed spec fn spec_nextcloud_password(&self) -> Option<String> {
        self.nextcloud_password
    }

    /// A store owning a fresh default registry, with no remote backend
    /// configured.
    pub fn new() -> (r: Self)
        ensures
            r.spec_config()@ == spec_default_config(),
            r.spec_nextcloud_url() is None,
            r.spec_nextcloud_user() is None,
            r.spec_nextcloud_password() is None,
    {
        ConfigManager {
            config: Config::new_test(),
            nextcloud_url: None,
            nextcloud_user: None,
            nextcloud_password: None,
        }
    }

    /// Records the remote backend's address and credentials.
    pub fn setup_nextcloud(&mut self, url: String, user: String, password: String)
        ensures
            final(self).spec_nextcloud_url() == Some(url),
            final(self).spec_nextcloud_user() == Some(user),
            final(self).spec_nextcloud_password() == Some(password),
            final(self).spec_config() == old(self).spec_config(),
    {
        self.nextcloud_url = Some(url);
        self.nextcloud_user = Some(user);
        self.nextcloud_password = Some(password);
    }

    /// The current registry.
    pub fn get_config(&self) -> (r: &Config)
        ensures
            *r == self.spec_config(),
    {
        &self.config
    }

    /// Replaces the registry with `config`, but only after `config`
    /// validates: the swap is all-or-nothing, and the old registry is
    /// discarded whole, never merged.
    pub fn update_config(&mut self, config: Config) -> (r: Result<(), SurveillanceError>)
        ensures
            config@.valid() ==> (r matches Ok(()) && final(self).spec_config() == config && final(self).spec_nextcloud_url() == old(self).spec_nextcloud_url() && final(self).spec_nextcloud_user() == old(self).spec_nextcloud_user() && final(self).spec_nextcloud_password() == old(self).spec_nextcloud_password()),
            !config@.valid() ==> (r matches Err(e) && e matches SurveillanceError::ConfigError {
                message,
            } && message@ == config@.validation_failure_message() && *final(self) == *old(self)),
    {
        match config.validate() {
            Ok(()) => {
                self.config = config;
                Ok(())
            },
            Err(e) => Err(e),
        }
    }

    /// Loads the registry from the remote backend.  The transport itself
    /// lives outside this store; in its absence the load replaces the local
    /// registry wholesale with the default one.
    pub fn load_from_nextcloud(&mut self) -> (r: Result<(), SurveillanceError>)
        ensures
            r matches Ok(()),
            final(self).spec_config()@ == spec_default_config(),
            final(self).spec_nextcloud_url() == old(self).spec_nextcloud_url(),
            final(self).spec_nextcloud_user() == old(self).spec_nextcloud_user(),
            final(self).spec_nextcloud_password() == old(self).spec_nextcloud_password(),
    {
        self.config = Config::new_test();
        Ok(())
    }

    /// Saves the registry to the remote backend.  The transport itself lives
    /// outside this store; the registry is validated before success is
    /// reported, and nothing is changed locally.
    pub fn save_to_nextcloud(&self) -> (r: Result<(), SurveillanceError>)
        ensures
            match r {
                Ok(()) => self.spec_config()@.valid(),
                Err(e) => !self.spec_config()@.valid() && (e matches
                    SurveillanceError::ConfigError { message } && message@
                    == self.spec_config()@.validation_failure_message()),
            },
    {
        self.config.validate()
    }
}

impl Default for ConfigManager {
    fn default() -> (r: Self)
        ensures
            r.spec_config()@ == spec_default_config(),
            r.spec_nextcloud_url() is None,
            r.spec_nextcloud_user() is None,
            r.spec_nextcloud_password() is None,
    {
        Self::new()
    }
}

} // verus!
