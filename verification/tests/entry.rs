use uefi_hid_core::binding_model::BindingState;
use uefi_hid_core::driver_binding::DriverBindingCoordinator;
use uefi_hid_core::guid::Guid;
use uefi_hid_core::handles::{AgentHandle, ControllerHandle};
use uefi_hid_core::telemetry::init_telemetry;

#[test]
fn main_should_do_nothing() {
    let driver = DriverBindingCoordinator::new(AgentHandle { token: 1 }, Guid::zero());
    let telemetry = init_telemetry(Guid::zero());
    assert_eq!(driver.state(ControllerHandle { token: 0 }), BindingState::NotBound);
    assert_eq!(driver.state(ControllerHandle { token: usize::MAX }), BindingState::NotBound);
    assert_eq!(telemetry.handle(), None);
}
