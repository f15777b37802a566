use pipeshare::portal::{check_portal_available, PortalCheck, PortalRequest, PATIENCE};

/// Runs a check, and gives its result and how many pauses it took.
fn run(portal_after: Option<u64>, backend_after: Option<u64>) -> (PortalCheck, u64, u64) {
    let mut check = check_portal_available();
    let (mut portal_waits, mut backend_waits) = (0u64, 0u64);
    loop {
        match check.request() {
            PortalRequest::HasOwner { name: "org.freedesktop.portal.Desktop" } => {
                check.accept(portal_after.map_or(false, |n| portal_waits >= n));
            }
            PortalRequest::HasOwner { name: "org.freedesktop.impl.portal.desktop.kde" } => {
                check.accept(backend_after.map_or(false, |n| backend_waits >= n));
            }
            PortalRequest::HasOwner { name } => panic!("{}", name),
            PortalRequest::Pause { millis } => {
                assert_eq!(millis, 1000);
                if matches!(check, PortalCheck::AwaitPortal { .. }) {
                    portal_waits += 1;
                } else {
                    backend_waits += 1;
                }
                check.proceed();
            }
            PortalRequest::Finished { available } => {
                assert_eq!(available, matches!(check, PortalCheck::Available { .. }));
                return (check, portal_waits, backend_waits);
            }
        }
    }
}

#[test]
fn test_portal_check() {
    let (check, portal_waits, backend_waits) = run(Some(0), Some(0));
    assert_eq!(check, PortalCheck::Available { backend: true });
    assert_eq!((portal_waits, backend_waits), (0, 0));
    println!("Portal check passed");
}

#[test]
fn a_late_portal_is_found() {
    assert_eq!(run(Some(4), Some(2)), (PortalCheck::Available { backend: true }, 4, 2));
    assert_eq!(run(Some(30), Some(0)), (PortalCheck::Available { backend: true }, 30, 0));
}

#[test]
fn a_missing_portal_is_given_up() {
    assert_eq!(PATIENCE, 30);
    assert_eq!(run(None, Some(0)), (PortalCheck::Unavailable, 30, 0));
    assert_eq!(run(Some(31), Some(0)), (PortalCheck::Unavailable, 30, 0));
}

#[test]
fn a_missing_backend_does_not_matter() {
    assert_eq!(run(Some(0), None), (PortalCheck::Available { backend: false }, 0, 30));
    assert_eq!(run(Some(1), Some(30)), (PortalCheck::Available { backend: true }, 1, 30));
}

#[test]
fn a_check_that_is_over_stays_over() {
    let mut check = PortalCheck::Unavailable;
    check.accept(true);
    check.proceed();
    assert_eq!(check, PortalCheck::Unavailable);
}
