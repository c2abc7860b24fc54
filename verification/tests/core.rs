use std::cell::Cell;
use std::sync::{Arc, Mutex};

use opm::capability::{
    Battery, Direction, Lighting, LightingEffect, LightingMode, Profiles, Rgb, RgbColor, SleepTime, SleepTimer,
};
use opm::device::Device;
use opm::driver::Driver;
use opm::error::Error;
use opm::identity::Identity;
use opm::preset::Preset;
use opm::registry::DriverRegistry;
use opm::transport;
use opm::cli::device::supported_devices;
use opm::cli::info::describe;
use opm::cli::list::list_lines;
use opm::discovery::classify::Classification;
use opm::discovery::Discovered;

fn fake_identity(vendor_id: u16, product_id: u16) -> Identity {
    Identity {
        vendor_id,
        product_id,
        manufacturer: None,
        product: None,
        serial: None,
        interfaces: Vec::new(),
    }
}

struct FakeKeyboard {
    identity: Identity,
    color: Cell<RgbColor>,
    profile: Cell<u8>,
}

impl Device for FakeKeyboard {
    fn identity_view(&self) -> Identity {
        self.identity.clone()
    }
    fn rgb_handle(&self) -> Option<&dyn Rgb> {
        self.rgb()
    }
    fn battery_handle(&self) -> Option<&dyn Battery> {
        self.battery()
    }
    fn profiles_handle(&self) -> Option<&dyn Profiles> {
        self.profiles()
    }
    fn lighting_handle(&self) -> Option<&dyn Lighting> {
        self.lighting()
    }
    fn sleep_timer_handle(&self) -> Option<&dyn SleepTimer> {
        self.sleep_timer()
    }
    fn identity(&self) -> &Identity {
        &self.identity
    }
    fn rgb(&self) -> Option<&dyn Rgb> {
        Some(self)
    }
    fn battery(&self) -> Option<&dyn Battery> {
        None
    }
    fn profiles(&self) -> Option<&dyn Profiles> {
        Some(self)
    }
    fn lighting(&self) -> Option<&dyn Lighting> {
        None
    }
    fn sleep_timer(&self) -> Option<&dyn SleepTimer> {
        None
    }
}

impl Rgb for FakeKeyboard {
    fn reads_color(&self, r: Result<RgbColor, Error>) -> bool {
        r == Ok(self.color.get())
    }
    fn writes_color(&self, _color: RgbColor, r: Result<(), Error>) -> bool {
        r.is_ok()
    }
    fn get_color(&self) -> Result<RgbColor, Error> {
        Ok(self.color.get())
    }
    fn set_color(&self, color: RgbColor) -> Result<(), Error> {
        self.color.set(color);
        Ok(())
    }
}

impl Profiles for FakeKeyboard {
    fn reads_profile(&self, r: Result<u8, Error>) -> bool {
        r == Ok(self.profile.get())
    }
    fn switches_profile(&self, _profile: u8, r: Result<(), Error>) -> bool {
        r.is_ok()
    }
    fn active_profile(&self) -> Result<u8, Error> {
        Ok(self.profile.get())
    }
    fn set_active_profile(&self, profile: u8) -> Result<(), Error> {
        self.profile.set(profile);
        Ok(())
    }
}

struct FakeKeyboardDriver;

impl Driver for FakeKeyboardDriver {
    fn display_name(&self) -> &str {
        self.name()
    }
    fn recognizes(&self, identity: Identity) -> bool {
        self.probe(&identity)
    }
    fn opens(&self, identity: Identity, r: Result<Box<dyn Device>, Error>) -> bool {
        r.map_or(false, |device| device.identity().vendor_id == identity.vendor_id)
    }
    fn name(&self) -> &str {
        "Fake Keyboard"
    }
    fn probe(&self, identity: &Identity) -> bool {
        identity.vendor_id == 0x1111 && identity.product_id == 0x0001
    }
    fn open(&self, identity: &Identity) -> Result<Box<dyn Device>, Error> {
        Ok(Box::new(FakeKeyboard {
            identity: identity.clone(),
            color: Cell::new(RgbColor { r: 0, g: 0, b: 0 }),
            profile: Cell::new(0),
        }))
    }
}

struct FakeHeadset {
    identity: Identity,
    battery_percent: Cell<u8>,
}

impl Device for FakeHeadset {
    fn identity_view(&self) -> Identity {
        self.identity.clone()
    }
    fn rgb_handle(&self) -> Option<&dyn Rgb> {
        self.rgb()
    }
    fn battery_handle(&self) -> Option<&dyn Battery> {
        self.battery()
    }
    fn profiles_handle(&self) -> Option<&dyn Profiles> {
        self.profiles()
    }
    fn lighting_handle(&self) -> Option<&dyn Lighting> {
        self.lighting()
    }
    fn sleep_timer_handle(&self) -> Option<&dyn SleepTimer> {
        self.sleep_timer()
    }
    fn identity(&self) -> &Identity {
        &self.identity
    }
    fn rgb(&self) -> Option<&dyn Rgb> {
        None
    }
    fn battery(&self) -> Option<&dyn Battery> {
        Some(self)
    }
    fn profiles(&self) -> Option<&dyn Profiles> {
        None
    }
    fn lighting(&self) -> Option<&dyn Lighting> {
        None
    }
    fn sleep_timer(&self) -> Option<&dyn SleepTimer> {
        None
    }
}

impl Battery for FakeHeadset {
    fn level_percent(&self) -> Result<u8, Error> {
        Ok(self.battery_percent.get())
    }
}

struct FakeHeadsetDriver;

impl Driver for FakeHeadsetDriver {
    fn display_name(&self) -> &str {
        self.name()
    }
    fn recognizes(&self, identity: Identity) -> bool {
        self.probe(&identity)
    }
    fn opens(&self, identity: Identity, r: Result<Box<dyn Device>, Error>) -> bool {
        r.map_or(false, |device| device.identity().vendor_id == identity.vendor_id)
    }
    fn name(&self) -> &str {
        "Fake Headset"
    }
    fn probe(&self, identity: &Identity) -> bool {
        identity.vendor_id == 0x2222 && identity.product_id == 0x0002
    }
    fn open(&self, identity: &Identity) -> Result<Box<dyn Device>, Error> {
        Ok(Box::new(FakeHeadset {
            identity: identity.clone(),
            battery_percent: Cell::new(87),
        }))
    }
}

fn registry_with_both_fakes() -> DriverRegistry {
    let mut registry = DriverRegistry::new();
    registry.register(Box::new(FakeKeyboardDriver));
    registry.register(Box::new(FakeHeadsetDriver));
    registry
}

#[test]
fn finds_the_driver_that_recognizes_the_identity() {
    let registry = registry_with_both_fakes();
    let keyboard_identity = fake_identity(0x1111, 0x0001);

    let driver = registry.find(&keyboard_identity).expect("should match");
    assert_eq!(driver.name(), "Fake Keyboard");
}

#[test]
fn find_returns_none_for_an_unrecognized_identity() {
    let registry = registry_with_both_fakes();
    let unknown_identity = fake_identity(0x9999, 0x9999);

    assert!(registry.find(&unknown_identity).is_none());
}

#[test]
fn open_fails_with_unsupported_for_an_unrecognized_identity() {
    let registry = registry_with_both_fakes();
    let unknown_identity = fake_identity(0x9999, 0x9999);

    assert!(matches!(
        registry.open(&unknown_identity),
        Err(Error::Unsupported)
    ));
}

#[test]
fn keyboard_exposes_rgb_and_profiles_but_not_battery() {
    let registry = registry_with_both_fakes();
    let identity = fake_identity(0x1111, 0x0001);

    let device = registry.open(&identity).expect("should open");
    assert!(device.rgb().is_some());
    assert!(device.profiles().is_some());
    assert!(device.battery().is_none());

    let rgb = device.rgb().unwrap();
    rgb.set_color(RgbColor { r: 255, g: 0, b: 0 }).unwrap();
    assert_eq!(rgb.get_color().unwrap(), RgbColor { r: 255, g: 0, b: 0 });
}

#[test]
fn headset_exposes_only_battery() {
    let registry = registry_with_both_fakes();
    let identity = fake_identity(0x2222, 0x0002);

    let device = registry.open(&identity).expect("should open");
    assert!(device.battery().is_some());
    assert!(device.rgb().is_none());
    assert!(device.profiles().is_none());

    assert_eq!(device.battery().unwrap().level_percent().unwrap(), 87);
}

#[test]
fn find_index_returns_the_first_recognizing_driver() {
    let mut registry = registry_with_both_fakes();
    registry.register(Box::new(FakeKeyboardDriver));
    assert_eq!(registry.find_index(&fake_identity(0x1111, 0x0001)), Some(0));
    assert_eq!(registry.find_index(&fake_identity(0x2222, 0x0002)), Some(1));
    assert_eq!(registry.find_index(&fake_identity(0x3333, 0x0002)), None);
    assert!(DriverRegistry::new().find(&fake_identity(0x1111, 0x0001)).is_none());
}

struct FakeDevice {
    identity: Identity,
    applied_effect: Arc<Mutex<Option<LightingEffect>>>,
    applied_sleep_time: Arc<Mutex<Option<SleepTime>>>,
    supports_lighting: bool,
    supports_sleep_timer: bool,
}

impl Default for FakeDevice {
    fn default() -> Self {
        Self {
            identity: fake_identity(0x0000, 0x0000),
            applied_effect: Arc::default(),
            applied_sleep_time: Arc::default(),
            supports_lighting: false,
            supports_sleep_timer: false,
        }
    }
}

impl Device for FakeDevice {
    fn identity_view(&self) -> Identity {
        self.identity.clone()
    }
    fn rgb_handle(&self) -> Option<&dyn Rgb> {
        self.rgb()
    }
    fn battery_handle(&self) -> Option<&dyn Battery> {
        self.battery()
    }
    fn profiles_handle(&self) -> Option<&dyn Profiles> {
        self.profiles()
    }
    fn lighting_handle(&self) -> Option<&dyn Lighting> {
        self.lighting()
    }
    fn sleep_timer_handle(&self) -> Option<&dyn SleepTimer> {
        self.sleep_timer()
    }
    fn identity(&self) -> &Identity {
        &self.identity
    }
    fn rgb(&self) -> Option<&dyn Rgb> {
        None
    }
    fn battery(&self) -> Option<&dyn Battery> {
        None
    }
    fn profiles(&self) -> Option<&dyn Profiles> {
        None
    }
    fn lighting(&self) -> Option<&dyn Lighting> {
        if self.supports_lighting {
            Some(self as &dyn Lighting)
        } else {
            None
        }
    }
    fn sleep_timer(&self) -> Option<&dyn SleepTimer> {
        if self.supports_sleep_timer {
            Some(self as &dyn SleepTimer)
        } else {
            None
        }
    }
}

impl Lighting for FakeDevice {
    fn sets_effect(&self, _effect: LightingEffect, r: Result<(), Error>) -> bool {
        r.is_ok()
    }
    fn set_effect(&self, effect: LightingEffect) -> Result<(), Error> {
        *self.applied_effect.lock().unwrap() = Some(effect);
        Ok(())
    }
}

impl SleepTimer for FakeDevice {
    fn sets_sleep_time(&self, _time: SleepTime, r: Result<(), Error>) -> bool {
        r.is_ok()
    }
    fn set_sleep_time(&self, time: SleepTime) -> Result<(), Error> {
        *self.applied_sleep_time.lock().unwrap() = Some(time);
        Ok(())
    }
}

fn sample_effect() -> LightingEffect {
    LightingEffect {
        mode: LightingMode::Spectrum,
        color: RgbColor { r: 1, g: 2, b: 3 },
        brightness: 5,
        speed: 2,
        direction: Direction::Right,
    }
}

#[test]
fn apply_calls_both_capabilities_when_both_fields_are_set() {
    let device = FakeDevice {
        supports_lighting: true,
        supports_sleep_timer: true,
        ..Default::default()
    };
    let preset = Preset {
        lighting: Some(sample_effect()),
        sleep_time: Some(SleepTime::FiveMinutes),
    };

    preset.apply(&device).expect("apply should succeed");

    assert_eq!(
        *device.applied_effect.lock().unwrap(),
        Some(sample_effect())
    );
    assert_eq!(
        *device.applied_sleep_time.lock().unwrap(),
        Some(SleepTime::FiveMinutes)
    );
}

#[test]
fn apply_skips_absent_fields() {
    let device = FakeDevice {
        supports_lighting: true,
        supports_sleep_timer: true,
        ..Default::default()
    };
    let preset = Preset {
        lighting: Some(sample_effect()),
        sleep_time: None,
    };

    preset.apply(&device).expect("apply should succeed");

    assert!(device.applied_effect.lock().unwrap().is_some());
    assert!(device.applied_sleep_time.lock().unwrap().is_none());
}

#[test]
fn apply_fails_when_device_lacks_lighting() {
    let device = FakeDevice {
        supports_lighting: false,
        supports_sleep_timer: true,
        ..Default::default()
    };
    let preset = Preset {
        lighting: Some(sample_effect()),
        sleep_time: None,
    };

    let err = preset
        .apply(&device)
        .expect_err("should fail: no Lighting capability");
    assert!(matches!(err, Error::Driver(_)));
}

#[test]
fn apply_fails_when_device_lacks_sleep_timer() {
    let device = FakeDevice {
        supports_lighting: false,
        supports_sleep_timer: false,
        ..Default::default()
    };
    let preset = Preset {
        lighting: None,
        sleep_time: Some(SleepTime::Never),
    };

    let err = preset
        .apply(&device)
        .expect_err("should fail: no SleepTimer capability");
    assert!(matches!(err, Error::Driver(_)));
}

#[test]
fn error_messages_read_as_before() {
    assert_eq!(Error::Unsupported.message(), "no registered driver recognizes this device");
    assert_eq!(
        Error::Transport(transport::Error::Open { path: "/dev/hidraw0".to_owned(), reason: "denied".to_owned() }).message(),
        "failed to open /dev/hidraw0: denied"
    );
    assert_eq!(Error::from(transport::Error::WouldBlock).message(), "no data available within the requested timeout");
    assert_eq!(transport::hid_timeout_millis(transport::ReadTimeout::Millis(u32::MAX)), i32::MAX);
    assert_eq!(transport::hid_timeout_millis(transport::ReadTimeout::Blocking), 5_000);
}

fn discovered(vendor_id: u16, product_id: u16) -> Discovered {
    Discovered { identity: fake_identity(vendor_id, product_id), classification: Classification::UnknownHid }
}

#[test]
fn supported_devices_keeps_recognized_ones_in_order() {
    let registry = registry_with_both_fakes();
    let all = vec![discovered(0x2222, 0x0002), discovered(0x9999, 0x9999), discovered(0x1111, 0x0001)];
    let kept = supported_devices(&registry, all);
    let ids: Vec<(u16, u16)> = kept.iter().map(|d| (d.identity.vendor_id, d.identity.product_id)).collect();
    assert_eq!(ids, vec![(0x2222, 0x0002), (0x1111, 0x0001)]);
}

#[test]
fn list_names_each_supported_device_s_driver() {
    let registry = registry_with_both_fakes();
    let supported = vec![discovered(0x1111, 0x0001), discovered(0x2222, 0x0002)];
    assert_eq!(
        list_lines(&registry, &supported),
        vec![
            "(unknown product) \u{2014} 0x1111:0x0001 \u{2014} Fake Keyboard".to_owned(),
            "(unknown product) \u{2014} 0x2222:0x0002 \u{2014} Fake Headset".to_owned(),
        ]
    );
    assert_eq!(
        list_lines(&registry, &[]),
        vec!["No supported peripherals detected. Run `pmctl discover` to see every HID device.".to_owned()]
    );
}

#[test]
fn describe_reports_the_opened_device_s_capabilities() {
    let registry = registry_with_both_fakes();
    let opened = registry.open(&fake_identity(0x2222, 0x0002)).ok().expect("headset opens");
    let lines = describe(opened.as_ref());
    assert_eq!(lines[0], "(unknown product)");
    assert_eq!(lines[5], "    rgb: false");
    assert_eq!(lines[6], "    battery: true");
    assert_eq!(lines[7], "    profiles: false");
}
