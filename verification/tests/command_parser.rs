use raftbot::command::{
    parse_command_args, serialize_command_args, CommandArgs, CommandKind, DEFAULT_QUALITY,
    DEFAULT_THRESHOLD,
};

fn args(kind: CommandKind) -> CommandArgs {
    CommandArgs::of_kind(kind)
}

#[test]
fn defaults_are_80_and_160() {
    let d = CommandArgs::default();
    assert_eq!(d.kind, CommandKind::Png);
    assert_eq!(d.quality, 80);
    assert_eq!(d.threshold, 160);
    assert!(!d.zip && !d.binary && !d.mask);
    assert_eq!(DEFAULT_QUALITY, 80);
    assert_eq!(DEFAULT_THRESHOLD, 160);
}

#[test]
fn blp_happy_path_command() {
    let a = parse_command_args("<@123> blp 80 zip", "123").unwrap();
    assert_eq!(a, CommandArgs { zip: true, ..args(CommandKind::Blp) });
}

#[test]
fn verbs_name_the_kinds() {
    assert_eq!(parse_command_args("blp", "1").unwrap().kind, CommandKind::Blp);
    assert_eq!(parse_command_args("png", "1").unwrap().kind, CommandKind::Png);
    assert_eq!(parse_command_args("rembg", "1").unwrap().kind, CommandKind::Rembg);
    assert_eq!(parse_command_args("bg", "1").unwrap().kind, CommandKind::Rembg);
    assert_eq!(parse_command_args("icon", "1").unwrap().kind, CommandKind::Icon);
}

#[test]
fn text_without_a_verb_is_no_command() {
    assert_eq!(parse_command_args("", "1"), None);
    assert_eq!(parse_command_args("   \t\n", "1"), None);
    assert_eq!(parse_command_args("<@1> <@!2>", "1"), None);
    assert_eq!(parse_command_args("hello blp", "1"), None);
    assert_eq!(parse_command_args("blpx", "1"), None);
    assert_eq!(parse_command_args("blp1000", "1"), None);
    assert_eq!(parse_command_args("blp8x", "1"), None);
}

#[test]
fn inline_number_sets_the_parameter() {
    assert_eq!(parse_command_args("blp80", "1").unwrap().quality, 80);
    assert_eq!(parse_command_args("blp5", "1").unwrap().quality, 5);
    assert_eq!(parse_command_args("rembg128", "1").unwrap().threshold, 128);
    assert_eq!(parse_command_args("bg0", "1").unwrap().threshold, 0);
    assert_eq!(parse_command_args("png80", "1").unwrap(), args(CommandKind::Png));
    assert_eq!(parse_command_args("icon64", "1").unwrap(), args(CommandKind::Icon));
}

#[test]
fn out_of_range_values_leave_the_default() {
    assert_eq!(parse_command_args("blp0", "1").unwrap().quality, 80);
    assert_eq!(parse_command_args("blp101", "1").unwrap().quality, 80);
    assert_eq!(parse_command_args("blp 0", "1").unwrap().quality, 80);
    assert_eq!(parse_command_args("blp 101", "1").unwrap().quality, 80);
    assert_eq!(parse_command_args("blp q0", "1").unwrap().quality, 80);
    assert_eq!(parse_command_args("blp --quality=300", "1").unwrap().quality, 80);
    assert_eq!(parse_command_args("rembg256", "1").unwrap().threshold, 160);
    assert_eq!(parse_command_args("rembg t256", "1").unwrap().threshold, 160);
    assert_eq!(parse_command_args("rembg 99999999999999999999", "1").unwrap().threshold, 160);
}

#[test]
fn rembg_threshold_clamp() {
    let a = parse_command_args("rembg 999", "1").unwrap();
    assert_eq!(a.kind, CommandKind::Rembg);
    assert_eq!(a.threshold, 160);
    assert!(!a.mask);
}

#[test]
fn range_edges_are_accepted() {
    assert_eq!(parse_command_args("blp 1", "1").unwrap().quality, 1);
    assert_eq!(parse_command_args("blp 100", "1").unwrap().quality, 100);
    assert_eq!(parse_command_args("rembg 0", "1").unwrap().threshold, 0);
    assert_eq!(parse_command_args("rembg 255", "1").unwrap().threshold, 255);
    assert_eq!(parse_command_args("blp 007", "1").unwrap().quality, 7);
    assert_eq!(parse_command_args("blp +7", "1").unwrap().quality, 7);
}

#[test]
fn flag_forms() {
    assert_eq!(parse_command_args("blp q85", "1").unwrap().quality, 85);
    assert_eq!(parse_command_args("blp --quality 85", "1").unwrap().quality, 85);
    assert_eq!(parse_command_args("blp --quality=85", "1").unwrap().quality, 85);
    assert_eq!(parse_command_args("rembg t200", "1").unwrap().threshold, 200);
    assert_eq!(parse_command_args("bg --threshold 200", "1").unwrap().threshold, 200);
    assert_eq!(parse_command_args("bg --threshold=200", "1").unwrap().threshold, 200);
    let a = parse_command_args("bg 200 binary mask zip", "1").unwrap();
    assert_eq!(
        a,
        CommandArgs {
            kind: CommandKind::Rembg,
            quality: 80,
            threshold: 200,
            zip: true,
            binary: true,
            mask: true,
        }
    );
}

#[test]
fn long_flag_takes_the_next_word_only_if_it_fits() {
    // the word after the flag is no number in range: it is read as a flag of its own
    let a = parse_command_args("blp --quality zip", "1").unwrap();
    assert_eq!(a.quality, 80);
    assert!(a.zip);
    let b = parse_command_args("blp --quality 500 zip", "1").unwrap();
    assert_eq!(b.quality, 80);
    assert!(b.zip);
    let c = parse_command_args("blp --quality", "1").unwrap();
    assert_eq!(c, args(CommandKind::Blp));
    let d = parse_command_args("blp --quality 40 50", "1").unwrap();
    assert_eq!(d.quality, 50);
}

#[test]
fn flags_of_other_kinds_and_unknown_flags_are_ignored() {
    assert_eq!(parse_command_args("png q50 t50 70", "1").unwrap(), args(CommandKind::Png));
    assert_eq!(parse_command_args("blp t50 --threshold=9", "1").unwrap(), args(CommandKind::Blp));
    assert_eq!(parse_command_args("rembg q50 --quality 5", "1").unwrap().quality, 80);
    assert_eq!(parse_command_args("rembg q50 --quality 5", "1").unwrap().threshold, 5);
    assert_eq!(parse_command_args("blp -z --zip fast", "1").unwrap(), args(CommandKind::Blp));
    assert_eq!(parse_command_args("icon zip", "1").unwrap().zip, true);
}

#[test]
fn mentions_and_white_space_are_passed_over() {
    let a = parse_command_args("  <@123>\t<@!9> blp\n q90 <#5>  zip ", "123").unwrap();
    assert_eq!(a, CommandArgs { quality: 90, zip: true, ..args(CommandKind::Blp) });
    let b = parse_command_args("\u{a0}bg\u{3000}mask\u{2003}", "1").unwrap();
    assert!(b.mask);
}

#[test]
fn later_value_wins() {
    assert_eq!(parse_command_args("blp 10 q20 --quality=30", "1").unwrap().quality, 30);
    assert_eq!(parse_command_args("blp50 60", "1").unwrap().quality, 60);
    assert_eq!(parse_command_args("blp50 600", "1").unwrap().quality, 50);
}

#[test]
fn canonical_text() {
    assert_eq!(serialize_command_args(&args(CommandKind::Png)), "png");
    assert_eq!(serialize_command_args(&args(CommandKind::Icon)), "icon");
    assert_eq!(serialize_command_args(&args(CommandKind::Blp)), "blp q80");
    assert_eq!(serialize_command_args(&args(CommandKind::Rembg)), "rembg t160");
    let a = CommandArgs {
        kind: CommandKind::Rembg,
        quality: 80,
        threshold: 0,
        zip: true,
        binary: true,
        mask: true,
    };
    assert_eq!(serialize_command_args(&a), "rembg t0 zip binary mask");
}

#[test]
fn parse_of_serialize_is_identity() {
    let kinds = [CommandKind::Blp, CommandKind::Png, CommandKind::Rembg, CommandKind::Icon];
    for kind in kinds {
        for bits in 0..8u8 {
            let values: Vec<u8> = match kind {
                CommandKind::Blp => vec![1, 9, 10, 80, 99, 100],
                CommandKind::Rembg => vec![0, 1, 99, 100, 160, 255],
                _ => vec![0],
            };
            for v in values {
                let mut a = CommandArgs::of_kind(kind);
                match kind {
                    CommandKind::Blp => a.quality = v,
                    CommandKind::Rembg => a.threshold = v,
                    _ => {}
                }
                a.zip = bits & 1 != 0;
                a.binary = bits & 2 != 0;
                a.mask = bits & 4 != 0;
                let text = serialize_command_args(&a);
                assert_eq!(parse_command_args(&text, "1"), Some(a), "{}", text);
            }
        }
    }
}

#[test]
fn mentions_are_cut_out_wherever_they_stand() {
    let zip = CommandArgs { zip: true, ..args(CommandKind::Blp) };
    assert_eq!(parse_command_args("<@123>blp zip", "123"), Some(zip));
    assert_eq!(parse_command_args("blp<@!5>zip", "1"), Some(zip));
    assert_eq!(parse_command_args("<@&77>blp<#8> zip<@9>", "1"), Some(zip));
    assert_eq!(parse_command_args("b<@1>lp", "1"), None);
    // a mention is cut out as a whole, from left to right
    assert_eq!(parse_command_args("<@1><@2>blp", "1"), Some(args(CommandKind::Blp)));
    assert_eq!(parse_command_args("<@<@1>blp", "1"), None);
}

#[test]
fn only_mentions_are_cut_out() {
    assert_eq!(parse_command_args("<3 blp", "1"), None);
    assert_eq!(parse_command_args("<@> blp", "1"), None);
    assert_eq!(parse_command_args("<@x1> blp", "1"), None);
    assert_eq!(parse_command_args("<@1 blp", "1"), None);
    assert_eq!(parse_command_args("<#> blp", "1"), None);
    assert_eq!(parse_command_args("<@&> blp", "1"), None);
    assert_eq!(parse_command_args("<@!&1> blp", "1"), None);
    assert_eq!(parse_command_args("<b> blp", "1"), None);
    assert_eq!(parse_command_args("blp <zip", "1"), Some(args(CommandKind::Blp)));
}

#[test]
fn mention_of_the_bot_is_cut_out_whatever_its_id_looks_like() {
    assert_eq!(parse_command_args("<@raft> blp", "raft"), Some(args(CommandKind::Blp)));
    assert_eq!(parse_command_args("<@!raft>blp", "raft"), Some(args(CommandKind::Blp)));
    assert_eq!(parse_command_args("<@raft> blp", "other"), None);
    assert_eq!(parse_command_args("<@>blp", ""), Some(args(CommandKind::Blp)));
    assert_eq!(parse_command_args("<@!>blp", ""), Some(args(CommandKind::Blp)));
    // the id is compared as it is written
    assert_eq!(parse_command_args("<@RAFT> blp", "raft"), None);
}

#[test]
fn capital_letters_count_as_small_ones() {
    assert_eq!(parse_command_args("BLP", "1"), Some(args(CommandKind::Blp)));
    let a = parse_command_args("<@1> BLP Q90 ZIP", "1").unwrap();
    assert_eq!(a, CommandArgs { quality: 90, zip: true, ..args(CommandKind::Blp) });
    let b = parse_command_args("Bg --Threshold=7 Binary MASK", "1").unwrap();
    assert_eq!((b.kind, b.threshold, b.binary, b.mask), (CommandKind::Rembg, 7, true, true));
    // the Kelvin sign is a capital k
    assert!(parse_command_args("bg mas\u{212a}", "1").unwrap().mask);
    assert_eq!(parse_command_args("BLÞ", "1"), None);
}

#[test]
fn digits_of_another_script_make_a_mention() {
    // ARABIC-INDIC DIGIT ONE, TWO, THREE
    let text = "<@\u{0661}\u{0662}\u{0663}>blp zip";
    assert_eq!(
        parse_command_args(text, "1"),
        Some(CommandArgs { zip: true, ..args(CommandKind::Blp) })
    );
    // a superscript two is no decimal digit
    assert_eq!(parse_command_args("<@\u{00B2}> blp", "1"), None);
}

#[test]
fn digits_of_another_script_behind_the_verb_are_no_number() {
    // ARABIC-INDIC DIGIT FIVE, ZERO
    assert_eq!(parse_command_args("blp\u{0665}\u{0660}", "1"), Some(args(CommandKind::Blp)));
    assert_eq!(parse_command_args("rembg\u{0665} mask", "1").unwrap().threshold, 160);
    assert_eq!(parse_command_args("blp5\u{0660}", "1"), Some(args(CommandKind::Blp)));
    assert_eq!(parse_command_args("blp50", "1").unwrap().quality, 50);
    // other characters behind the verb spell no command
    assert_eq!(parse_command_args("blp\u{00B2}", "1"), None);
    assert_eq!(parse_command_args("blp+5", "1"), None);
    assert_eq!(parse_command_args("blpx", "1"), None);
    assert_eq!(parse_command_args("blp\u{0665}\u{0660}\u{0660}\u{0660}", "1"), None);
}
