use xenu::color::Rgb;
use xenu::failure::Failure;
use xenu::install::{
    atom_name, describe, pack, prior_owner, puts, read_property, step, Action, Installer, Put,
    Reply, Request, Screen, Stage, Step, Triple, FORMAT, PIXMAP, WORDS,
};
use xenu::source::solid;

const SCREEN: Screen = Screen { width: 100, height: 100, depth: 24 };

fn atoms() -> [u32; 3] {
    [301, 302, 303]
}

/// Runs an installation against replies that all succeed, with the given
/// readings of the three properties, and gives back every request sent.
fn run(readings: [Option<u32>; 3], pixmap: u32, context: u32) -> Vec<Request> {
    let (mut installer, mut action) = Installer::start(SCREEN, pixmap, context);
    let mut sent = Vec::new();
    let mut interned = 0;
    let mut read = 0;
    loop {
        let request = match action {
            Action::Send(request) => request,
            Action::Finish => return sent,
            Action::Abort(step) => panic!("aborted at {:?}", step),
        };
        sent.push(request);
        let reply = match request {
            Request::InternAtom { .. } => {
                interned += 1;
                Reply::Atom(atoms()[interned - 1])
            }
            Request::GetProperty { .. } => {
                read += 1;
                Reply::Property(readings[read - 1])
            }
            _ => Reply::Done,
        };
        let next = installer.advance(reply);
        installer = next.0;
        action = next.1;
    }
}

fn tail(pixmap: u32, context: u32) -> Vec<Request> {
    vec![
        Request::KillAllTemporary,
        Request::RetainTemporary,
        Request::CreateImage { width: 100, height: 100, depth: 24 },
        Request::CreatePixmap { pixmap, width: 100, height: 100, depth: 24 },
        Request::CreateContext { context },
        Request::PutImage { pixmap, context, width: 100, height: 100 },
        Request::SetBackground { pixmap },
        Request::ClearRoot { exposures: true, width: 100, height: 100 },
        Request::ChangeProperty { atom: 301, kind: 20, format: 32, pixmap },
        Request::ChangeProperty { atom: 302, kind: 20, format: 32, pixmap },
        Request::ChangeProperty { atom: 303, kind: 20, format: 32, pixmap },
        Request::Flush,
    ]
}

fn head() -> Vec<Request> {
    vec![
        Request::InternAtom { name: 0 },
        Request::InternAtom { name: 1 },
        Request::InternAtom { name: 2 },
        Request::GetProperty { atom: 301, kind: 20, delete: false, offset: 0, length: 1 },
        Request::GetProperty { atom: 302, kind: 20, delete: false, offset: 0, length: 1 },
        Request::GetProperty { atom: 303, kind: 20, delete: false, offset: 0, length: 1 },
    ]
}

#[test]
fn a_pixel_is_packed_into_three_bytes() {
    assert_eq!(pack(Rgb { red: 0x12, green: 0x34, blue: 0x56 }), 0x123456);
    assert_eq!(pack(Rgb { red: 255, green: 0, blue: 0 }), 0xff0000);
    assert_eq!(pack(Rgb { red: 0, green: 255, blue: 0 }), 0x00ff00);
    assert_eq!(pack(Rgb { red: 0, green: 0, blue: 255 }), 0x0000ff);
    assert_eq!(pack(Rgb { red: 255, green: 255, blue: 255 }), 0xffffff);
}

#[test]
fn a_canvas_is_put_pixel_by_pixel_row_after_row() {
    let all = puts(&solid(3, 2, Rgb { red: 1, green: 2, blue: 3 }), 3, 2).unwrap();
    let cells = [(0, 0), (1, 0), (2, 0), (0, 1), (1, 1), (2, 1)];
    assert_eq!(all.len(), 6);
    for (put, (x, y)) in all.iter().zip(cells) {
        assert_eq!(*put, Put { x, y, pixel: 0x010203 });
    }
}

#[test]
fn a_canvas_of_another_size_than_the_image_is_not_put() {
    let canvas = solid(3, 2, Rgb { red: 1, green: 2, blue: 3 });
    assert!(puts(&canvas, 2, 3).is_none());
    assert!(puts(&canvas, 3, 3).is_none());
    assert!(puts(&canvas, 4, 2).is_none());
    assert_eq!(puts(&solid(0, 0, Rgb { red: 1, green: 2, blue: 3 }), 0, 0), Some(Vec::new()));
}

#[test]
fn the_properties_are_pixmaps_of_32_bits() {
    assert_eq!(PIXMAP, 20);
    assert_eq!(FORMAT, 32);
    assert_eq!(WORDS, 1);
}

#[test]
fn a_property_names_a_pixmap_only_with_the_right_type_and_a_value() {
    assert_eq!(read_property(PIXMAP, &vec![77]), Some(77));
    assert_eq!(read_property(PIXMAP, &vec![77, 78]), Some(77));
    assert_eq!(read_property(PIXMAP, &Vec::new()), None);
    assert_eq!(read_property(0, &vec![77]), None);
    assert_eq!(read_property(19, &vec![77]), None);
}

#[test]
fn an_owner_is_detected_only_where_all_three_agree() {
    let triple = |first, second, third| Triple { first, second, third };
    assert_eq!(prior_owner(&triple(Some(5), Some(5), Some(5))), Some(5));
    assert_eq!(prior_owner(&triple(Some(5), Some(5), Some(6))), None);
    assert_eq!(prior_owner(&triple(Some(5), Some(6), Some(5))), None);
    assert_eq!(prior_owner(&triple(Some(6), Some(5), Some(5))), None);
    assert_eq!(prior_owner(&triple(Some(5), Some(5), None)), None);
    assert_eq!(prior_owner(&triple(None, Some(5), Some(5))), None);
    assert_eq!(prior_owner(&triple(None, None, None)), None);
    assert_eq!(prior_owner(&triple(Some(0), Some(0), Some(0))), Some(0));
}

#[test]
fn the_three_properties_have_their_names() {
    assert_eq!(atom_name(0), "_XROOTPMAP_ID");
    assert_eq!(atom_name(1), "_XSETROOT_ID");
    assert_eq!(atom_name(2), "_XENU_BACKGROUND_ID");
}

#[test]
fn a_first_installation_sends_the_script_without_a_kill() {
    let sent = run([None, None, None], 900, 901);
    let mut expected = head();
    expected.extend(tail(900, 901));
    assert_eq!(sent, expected);
}

#[test]
fn an_installation_creates_one_pixmap_and_publishes_it_three_times() {
    let sent = run([None, Some(4), None], 900, 901);
    let created: Vec<&Request> =
        sent.iter().filter(|request| matches!(request, Request::CreatePixmap { .. })).collect();
    assert_eq!(created.len(), 1);
    let published: Vec<u32> = sent
        .iter()
        .filter_map(|request| match request {
            Request::ChangeProperty { pixmap, .. } => Some(*pixmap),
            _ => None,
        })
        .collect();
    assert_eq!(published, vec![900, 900, 900]);
}

#[test]
fn a_second_installation_destroys_the_first_pixmap_once() {
    let first = run([None, None, None], 900, 901);
    assert!(!first.iter().any(|request| matches!(request, Request::KillClient { .. })));
    // the first run left its pixmap in all three properties
    let second = run([Some(900), Some(900), Some(900)], 910, 911);
    let mut expected = head();
    expected.push(Request::KillClient { resource: 900 });
    expected.extend(tail(910, 911));
    assert_eq!(second, expected);
    let kills = second.iter().filter(|request| matches!(request, Request::KillClient { .. })).count();
    assert_eq!(kills, 1);
    let kill = second.iter().position(|request| matches!(request, Request::KillClient { .. })).unwrap();
    let create = second.iter().position(|request| matches!(request, Request::CreatePixmap { .. })).unwrap();
    assert!(kill < create);
}

#[test]
fn properties_that_disagree_are_not_cleaned_up() {
    let sent = run([Some(900), Some(900), Some(901)], 910, 911);
    assert!(!sent.iter().any(|request| matches!(request, Request::KillClient { .. })));
    let sent = run([Some(900), None, Some(900)], 910, 911);
    assert!(!sent.iter().any(|request| matches!(request, Request::KillClient { .. })));
}

#[test]
fn a_property_that_cannot_be_read_counts_as_unset() {
    let (installer, _) = Installer::start(SCREEN, 1, 2);
    let (installer, _) = installer.advance(Reply::Atom(301));
    let (installer, _) = installer.advance(Reply::Atom(302));
    let (installer, _) = installer.advance(Reply::Atom(303));
    let (installer, _) = installer.advance(Reply::Property(Some(9)));
    let (installer, _) = installer.advance(Reply::Failed);
    let (installer, action) = installer.advance(Reply::Property(Some(9)));
    assert_eq!(installer.ids, Triple { first: Some(9), second: None, third: Some(9) });
    assert_eq!(installer.stage, Stage::Running);
    assert_eq!(action, Action::Send(Request::KillAllTemporary));
}

#[test]
fn a_name_that_cannot_be_interned_ends_the_installation() {
    let (installer, _) = Installer::start(SCREEN, 1, 2);
    let (installer, _) = installer.advance(Reply::Atom(301));
    let (installer, action) = installer.advance(Reply::Failed);
    assert_eq!(action, Action::Abort(Step::InternAtom));
    assert_eq!(installer.stage, Stage::Aborted(Step::InternAtom));
    let (again, action) = installer.advance(Reply::Done);
    assert_eq!(action, Action::Abort(Step::InternAtom));
    assert_eq!(again, installer);
}

#[test]
fn a_request_that_fails_ends_the_installation_at_its_step() {
    let steps = [
        Step::KillTemporary,
        Step::RetainTemporary,
        Step::CreateImage,
        Step::CreatePixmap,
        Step::CreateContext,
        Step::PutImage,
        Step::SetBackground,
        Step::ClearRoot,
        Step::Publish,
        Step::Publish,
        Step::Publish,
        Step::Flush,
    ];
    for (failing, expected) in steps.iter().enumerate() {
        let (mut installer, _) = Installer::start(SCREEN, 1, 2);
        for atom in atoms() {
            installer = installer.advance(Reply::Atom(atom)).0;
        }
        for _ in 0..3 {
            installer = installer.advance(Reply::Property(None)).0;
        }
        for _ in 0..failing {
            let next = installer.advance(Reply::Done);
            assert!(matches!(next.1, Action::Send(_)));
            installer = next.0;
        }
        let (installer, action) = installer.advance(Reply::Failed);
        assert_eq!(action, Action::Abort(*expected));
        assert_eq!(installer.stage, Stage::Aborted(*expected));
    }
}

#[test]
fn a_failed_kill_of_the_owner_is_named() {
    let (mut installer, _) = Installer::start(SCREEN, 1, 2);
    for atom in atoms() {
        installer = installer.advance(Reply::Atom(atom)).0;
    }
    installer = installer.advance(Reply::Property(Some(5))).0;
    installer = installer.advance(Reply::Property(Some(5))).0;
    let (installer, action) = installer.advance(Reply::Property(Some(5)));
    assert_eq!(action, Action::Send(Request::KillClient { resource: 5 }));
    let (_, action) = installer.advance(Reply::Failed);
    assert_eq!(action, Action::Abort(Step::KillOwner));
}

#[test]
fn a_finished_installation_stays_finished() {
    let (mut installer, _) = Installer::start(SCREEN, 1, 2);
    for atom in atoms() {
        installer = installer.advance(Reply::Atom(atom)).0;
    }
    for _ in 0..3 {
        installer = installer.advance(Reply::Property(None)).0;
    }
    let mut action = Action::Send(Request::KillAllTemporary);
    for _ in 0..12 {
        let next = installer.advance(Reply::Done);
        installer = next.0;
        action = next.1;
    }
    assert_eq!(action, Action::Finish);
    assert_eq!(installer.stage, Stage::Finished);
    assert_eq!(installer.advance(Reply::Failed).1, Action::Finish);
}

#[test]
fn every_request_belongs_to_a_step_with_a_message() {
    assert_eq!(step(&Request::CreatePixmap { pixmap: 1, width: 1, height: 1, depth: 1 }), Step::CreatePixmap);
    assert_eq!(
        step(&Request::ChangeProperty { atom: 1, kind: 20, format: 32, pixmap: 1 }),
        Step::Publish
    );
    assert_eq!(describe(Step::CreatePixmap), "could not create pixmap");
    assert_eq!(describe(Step::CreateImage), "could not create image");
    assert_eq!(describe(Step::InternAtom), "failed to intern atom");
    assert_eq!(Failure::Protocol(Step::PutImage).message(), "could not draw image");
    assert_eq!(Failure::Decode.message(), "failed to open image");
    assert_eq!(Failure::Color.message(), "invalid color");
    assert_eq!(Failure::Geometry.message(), "invalid geometry");
    assert_eq!(
        Failure::Options.message(),
        "options exclude each other or ask for no background"
    );
    assert_eq!(Failure::Connection.message(), "could not connect to the display");
}

#[test]
fn every_step_has_its_own_message() {
    let steps = [
        Step::InternAtom,
        Step::ReadProperty,
        Step::KillOwner,
        Step::KillTemporary,
        Step::RetainTemporary,
        Step::CreateImage,
        Step::CreatePixmap,
        Step::CreateContext,
        Step::PutImage,
        Step::SetBackground,
        Step::ClearRoot,
        Step::Publish,
        Step::Flush,
    ];
    for (i, first) in steps.iter().enumerate() {
        assert_eq!(Failure::Protocol(*first).message(), describe(*first));
        for second in steps.iter().skip(i + 1) {
            assert_ne!(describe(*first), describe(*second));
        }
    }
}
