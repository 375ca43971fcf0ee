use vfs_shim::hook::image_copy::{
    image_copy_step, real_image_section, ImageCopyEvent, ImageCopyStep,
};

const LEN: u64 = 77;

/// The steps of a copy, with `Over` at the end, where each is answered in turn.
fn run(events: &[ImageCopyEvent]) -> Vec<ImageCopyStep> {
    let (mut copy, first) = real_image_section(Some("data/a.dll"), LEN);
    let mut steps = vec![first];
    for e in events {
        let (next, step) = image_copy_step(copy, *e);
        copy = next;
        steps.push(step);
    }
    steps
}

fn last(events: &[ImageCopyEvent]) -> ImageCopyStep {
    run(events).pop().unwrap_or_else(|| unreachable!())
}

#[test]
fn a_file_without_a_path_has_no_copy() {
    let (_, step) = real_image_section(None, LEN);
    assert_eq!(step, ImageCopyStep::Over(None));
}

#[test]
fn a_whole_copy_is_used_as_it_is() {
    assert_eq!(
        run(&[
            ImageCopyEvent::DirectoryMade(true),
            ImageCopyEvent::Length(Some(LEN)),
            ImageCopyEvent::Opened(true),
            ImageCopyEvent::Answered(0),
        ]),
        [
            ImageCopyStep::MakeDirectory,
            ImageCopyStep::Look,
            ImageCopyStep::Open,
            ImageCopyStep::AskSystem,
            ImageCopyStep::Over(Some(0)),
        ]
    );
}

#[test]
fn a_missing_or_cut_copy_is_written_beside_its_place_and_moved() {
    for n in [None, Some(LEN - 1), Some(LEN + 1)] {
        assert_eq!(
            run(&[
                ImageCopyEvent::DirectoryMade(true),
                ImageCopyEvent::Length(n),
                ImageCopyEvent::Written(true),
                ImageCopyEvent::Moved(true),
                ImageCopyEvent::Opened(true),
                ImageCopyEvent::Answered(0x4000_0003),
            ]),
            [
                ImageCopyStep::MakeDirectory,
                ImageCopyStep::Look,
                ImageCopyStep::Write,
                ImageCopyStep::Move,
                ImageCopyStep::Open,
                ImageCopyStep::AskSystem,
                ImageCopyStep::Over(Some(0x4000_0003)),
            ]
        );
    }
}

#[test]
fn a_failed_move_is_made_up_for_by_a_whole_copy_alone() {
    let failed = [
        ImageCopyEvent::DirectoryMade(true),
        ImageCopyEvent::Length(None),
        ImageCopyEvent::Written(true),
        ImageCopyEvent::Moved(false),
    ];
    assert_eq!(last(&failed), ImageCopyStep::Discard);
    let discarded = [&failed[..], &[ImageCopyEvent::Discarded]].concat();
    assert_eq!(last(&discarded), ImageCopyStep::Look);
    for (n, want) in [
        (Some(LEN), ImageCopyStep::Open),
        (Some(LEN - 1), ImageCopyStep::Over(None)),
        (None, ImageCopyStep::Over(None)),
    ] {
        let seen = [&discarded[..], &[ImageCopyEvent::Length(n)]].concat();
        assert_eq!(last(&seen), want);
    }
}

#[test]
fn a_step_that_fails_gives_the_copy_up() {
    let made = ImageCopyEvent::DirectoryMade(true);
    let whole = ImageCopyEvent::Length(Some(LEN));
    for events in [
        vec![ImageCopyEvent::DirectoryMade(false)],
        vec![made, ImageCopyEvent::Length(None), ImageCopyEvent::Written(false)],
        vec![made, whole, ImageCopyEvent::Opened(false)],
        vec![made, whole, ImageCopyEvent::Opened(true), ImageCopyEvent::Answered(-1)],
        vec![made, ImageCopyEvent::Answered(0)],
    ] {
        assert_eq!(last(&events), ImageCopyStep::Over(None));
    }
}
