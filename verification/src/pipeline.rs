//! The commands of one incremental transfer, with the configured
//! compression on both sides, and the retention commands that follow a
//! successful one.

use vstd::prelude::*;
use crate::config::KeepPolicy;
use crate::text::{
    concat, decimal_digits, join_with, law_split_inverts_join, split_on, split_on_char, u64_to_decimal,
    views,
};
use crate::zfs::{recv_argv, recv_args, send_argv, send_args};

verus! {

/// Whether a word is not empty.
pub open spec fn non_empty() -> spec_fn(Seq<char>) -> bool {
    |w: Seq<char>| w.len() > 0
}

/// The words of a flag string: its pieces between spaces, empty ones left
/// out.
pub open spec fn flag_words(flags: Seq<char>) -> Seq<Seq<char>> {
    split_on(flags, ' ').filter(non_empty())
}

/// Computes `flag_words`.
pub fn flag_words_of(flags: &str) -> (res: Vec<String>)
    ensures
        views(res@) == flag_words(flags@),
{
    let pieces = split_on_char(flags, ' ');
    let ghost ps = split_on(flags@, ' ');
    let mut out: Vec<String> = Vec::new();
    let mut i: usize = 0;
    proof {
        reveal(Seq::filter);
        assert(ps.take(0) == Seq::<Seq<char>>::empty());
    }
    while i < pieces.len()
        invariant
            views(pieces@) == ps,
            i <= pieces@.len(),
            views(out@) == ps.take(i as int).filter(non_empty()),
        decreases pieces@.len() - i,
    {
        let ghost before = out@;
        proof {
            reveal(Seq::filter);
            assert(ps.take(i + 1).drop_last() == ps.take(i as int));
            assert(ps.take(i + 1).last() == ps[i as int]);
            assert(ps[i as int] == pieces@[i as int]@);
        }
        if !pieces[i].as_str().is_empty() {
            out.push(pieces[i].clone());
            assert(views(out@) == views(before).push(pieces@[i as int]@));
        }
        i = i + 1;
    }
    assert(ps.take(pieces@.len() as int) == ps);
    out
}

/// Whether a compression program is configured: any name but the empty
/// text and `none`.
pub open spec fn compresses(compress: Seq<char>) -> bool {
    compress.len() > 0 && compress != "none"@
}

/// Computes `compresses`.
pub fn uses_compression(compress: &str) -> (b: bool)
    ensures
        b == compresses(compress@),
{
    let c = String::from_str(compress);
    let none = String::from_str("none");
    !compress.is_empty() && !(c == none)
}

/// The views of a list of commands.
pub open spec fn command_views(v: Seq<Vec<String>>) -> Seq<Seq<Seq<char>>> {
    v.map_values(|c: Vec<String>| views(c@))
}

/// The `zfs` invocation of the source side: `zfs` with its arguments,
/// behind `sudo` when privileged commands go through it.
pub open spec fn remote_zfs(use_sudo: bool, args: Seq<Seq<char>>) -> Seq<Seq<char>> {
    if use_sudo {
        seq!["sudo"@, "zfs"@] + args
    } else {
        seq!["zfs"@] + args
    }
}

/// The commands run on the source host, joined by pipes: `zfs send -I`
/// from `common_snap` to `remote_snap`, then the compressor with its flags
/// when one is configured.
pub open spec fn send_pipeline_of(
    use_sudo: bool,
    remote_fs: Seq<char>,
    common_snap: Seq<char>,
    remote_snap: Seq<char>,
    compress: Seq<char>,
    compress_flags: Seq<char>,
) -> Seq<Seq<Seq<char>>> {
    let send = remote_zfs(use_sudo, send_argv(remote_fs, common_snap, remote_snap));
    if compresses(compress) {
        seq![send, seq![compress] + flag_words(compress_flags)]
    } else {
        seq![send]
    }
}

/// The commands run on this machine, joined by pipes: the compressor with
/// the decompression flags when one is configured, then
/// `zfs recv -F -eu local_fs`.
pub open spec fn recv_pipeline_of(
    local_fs: Seq<char>,
    compress: Seq<char>,
    uncompress_flags: Seq<char>,
) -> Seq<Seq<Seq<char>>> {
    let recv = seq!["zfs"@] + recv_argv(local_fs);
    if compresses(compress) {
        seq![seq![compress] + flag_words(uncompress_flags), recv]
    } else {
        seq![recv]
    }
}

/// `first` followed by the texts of `rest`.
fn command_with(first: Vec<String>, rest: &Vec<String>) -> (res: Vec<String>)
    ensures
        views(res@) == views(first@) + views(rest@),
{
    let mut out = first;
    let ghost start = views(out@);
    let mut i: usize = 0;
    while i < rest.len()
        invariant
            i <= rest@.len(),
            views(out@) == start + views(rest@).take(i as int),
        decreases rest@.len() - i,
    {
        let ghost before = out@;
        out.push(rest[i].clone());
        assert(views(out@) =~= views(before).push(rest@[i as int]@));
        assert(start + views(rest@).take(i + 1) =~= (start + views(rest@).take(i as int)).push(
            rest@[i as int]@,
        ));
        i = i + 1;
    }
    assert(views(rest@).take(rest@.len() as int) == views(rest@));
    out
}

/// Computes `send_pipeline_of`.
pub fn send_pipeline(
    use_sudo: bool,
    remote_fs: &str,
    common_snap: &str,
    remote_snap: &str,
    compress: &str,
    compress_flags: &str,
) -> (res: Vec<Vec<String>>)
    ensures
        command_views(res@) == send_pipeline_of(
            use_sudo,
            remote_fs@,
            common_snap@,
            remote_snap@,
            compress@,
            compress_flags@,
        ),
        compresses(compress@) ==> res@.len() == 2 && views(res@[1]@) == seq![compress@] + split_on(
            compress_flags@,
            ' ',
        ).filter(non_empty()),
        !compresses(compress@) ==> res@.len() == 1,
        views(res@[0]@) == (if use_sudo { seq!["sudo"@, "zfs"@] } else { seq!["zfs"@] }) + seq![
            "send"@,
            "-I"@,
            remote_fs@ + common_snap@,
            remote_fs@ + remote_snap@,
        ],
{
    let head = if use_sudo {
        let h = vec![String::from_str("sudo"), String::from_str("zfs")];
        assert(views(h@) == seq!["sudo"@, "zfs"@]);
        h
    } else {
        let h = vec![String::from_str("zfs")];
        assert(views(h@) == seq!["zfs"@]);
        h
    };
    let send = command_with(head, &send_args(remote_fs, common_snap, remote_snap));
    let mut out: Vec<Vec<String>> = Vec::new();
    out.push(send);
    if uses_compression(compress) {
        let c = vec![String::from_str(compress)];
        assert(views(c@) == seq![compress@]);
        out.push(command_with(c, &flag_words_of(compress_flags)));
    }
    assert(command_views(out@) =~= send_pipeline_of(
        use_sudo,
        remote_fs@,
        common_snap@,
        remote_snap@,
        compress@,
        compress_flags@,
    ));
    assert(views(out@[0]@) == command_views(out@)[0]);
    proof {
        if compresses(compress@) {
            assert(views(out@[1]@) == command_views(out@)[1]);
        }
    }
    out
}

/// Computes `recv_pipeline_of`.
pub fn recv_pipeline(local_fs: &str, compress: &str, uncompress_flags: &str) -> (res: Vec<Vec<String>>)
    ensures
        command_views(res@) == recv_pipeline_of(local_fs@, compress@, uncompress_flags@),
        compresses(compress@) ==> res@.len() == 2 && views(res@[0]@) == seq![compress@] + split_on(
            uncompress_flags@,
            ' ',
        ).filter(non_empty()),
        !compresses(compress@) ==> res@.len() == 1,
        views(res@.last()@) == seq!["zfs"@, "recv"@, "-F"@, "-eu"@, local_fs@],
{
    let head = vec![String::from_str("zfs")];
    assert(views(head@) == seq!["zfs"@]);
    let recv = command_with(head, &recv_args(local_fs));
    let mut out: Vec<Vec<String>> = Vec::new();
    if uses_compression(compress) {
        let c = vec![String::from_str(compress)];
        assert(views(c@) == seq![compress@]);
        out.push(command_with(c, &flag_words_of(uncompress_flags)));
    }
    out.push(recv);
    assert(command_views(out@) =~= recv_pipeline_of(local_fs@, compress@, uncompress_flags@));
    assert(views(out@.last()@) == command_views(out@).last());
    out
}

/// The command that keeps the `count` most recent snapshots labelled
/// `label` of `target` and destroys the older ones.
pub open spec fn retention_argv(label: Seq<char>, count: u32, target: Seq<char>) -> Seq<Seq<char>> {
    seq![
        "zfs-auto-snapshot"@,
        "--quiet"@,
        "--destroy-only"@,
        "--label="@ + label,
        "--keep="@ + decimal_digits(count as nat),
        target,
    ]
}

/// The retention commands for `target`, one per policy, in order.
pub open spec fn retention_commands_of(policies: Seq<KeepPolicy>, target: Seq<char>) -> Seq<Seq<Seq<char>>> {
    policies.map_values(|p: KeepPolicy| retention_argv(p.label@, p.count, target))
}

/// Computes `retention_argv`.
fn retention_command(policy: &KeepPolicy, target: &str) -> (res: Vec<String>)
    ensures
        views(res@) == retention_argv(policy.label@, policy.count, target@),
{
    let v = vec![
        String::from_str("zfs-auto-snapshot"),
        String::from_str("--quiet"),
        String::from_str("--destroy-only"),
        concat("--label=", policy.label.as_str()),
        concat("--keep=", u64_to_decimal(policy.count as u64).as_str()),
        String::from_str(target),
    ];
    assert(views(v@) == retention_argv(policy.label@, policy.count, target@));
    v
}

/// Computes `retention_commands_of`: what runs after a successful transfer
/// into `target`.
pub fn retention_commands(policies: &Vec<KeepPolicy>, target: &str) -> (res: Vec<Vec<String>>)
    ensures
        command_views(res@) == retention_commands_of(policies@, target@),
        res@.len() == policies@.len(),
        forall|k: int|
            0 <= k < policies@.len() ==> views((#[trigger] res@[k])@) == seq![
                "zfs-auto-snapshot"@,
                "--quiet"@,
                "--destroy-only"@,
                "--label="@ + policies@[k].label@,
                "--keep="@ + decimal_digits(policies@[k].count as nat),
                target@,
            ],
{
    let mut out: Vec<Vec<String>> = Vec::new();
    let mut i: usize = 0;
    while i < policies.len()
        invariant
            i <= policies@.len(),
            command_views(out@) == retention_commands_of(policies@.take(i as int), target@),
        decreases policies@.len() - i,
    {
        let ghost before = out@;
        let c = retention_command(&policies[i], target);
        out.push(c);
        assert(command_views(out@) =~= command_views(before).push(views(c@)));
        assert(retention_commands_of(policies@.take(i + 1), target@) =~= retention_commands_of(
            policies@.take(i as int),
            target@,
        ).push(views(c@)));
        i = i + 1;
    }
    assert(policies@.take(policies@.len() as int) == policies@);
    proof {
        law_one_retention_command_per_policy(policies@, target@);
        assert forall|k: int| 0 <= k < policies@.len() implies views((#[trigger] out@[k])@) == seq![
            "zfs-auto-snapshot"@,
            "--quiet"@,
            "--destroy-only"@,
            "--label="@ + policies@[k].label@,
            "--keep="@ + decimal_digits(policies@[k].count as nat),
            target@,
        ] by {
            assert(views(out@[k]@) == command_views(out@)[k]);
            assert(retention_commands_of(policies@, target@)[k] == retention_commands_of(policies@, target@)[k]);
        }
    }
    out
}

/// Whatever the source compresses, this machine decompresses with the same
/// program, given the decompression flags word by word, before
/// `zfs recv -F -eu`; the source compresses with the compression flags.
/// Without compression both sides run `zfs` alone.
pub proof fn law_compression_on_both_sides_or_neither(
    use_sudo: bool,
    remote_fs: Seq<char>,
    common_snap: Seq<char>,
    remote_snap: Seq<char>,
    local_fs: Seq<char>,
    compress: Seq<char>,
    compress_flags: Seq<char>,
    uncompress_flags: Seq<char>,
)
    ensures
        ({
            let send = send_pipeline_of(use_sudo, remote_fs, common_snap, remote_snap, compress, compress_flags);
            let recv = recv_pipeline_of(local_fs, compress, uncompress_flags);
            &&& send.len() == recv.len()
            &&& compresses(compress) ==> {
                &&& send.len() == 2
                &&& send[1] == seq![compress] + split_on(compress_flags, ' ').filter(non_empty())
                &&& recv[0] == seq![compress] + split_on(uncompress_flags, ' ').filter(non_empty())
            }
            &&& !compresses(compress) ==> send.len() == 1
            &&& send[0] == (if use_sudo { seq!["sudo"@, "zfs"@] } else { seq!["zfs"@] }) + seq![
                "send"@,
                "-I"@,
                remote_fs + common_snap,
                remote_fs + remote_snap,
            ]
            &&& recv.last() == seq!["zfs"@, "recv"@, "-F"@, "-eu"@, local_fs]
        }),
{
}

/// The flag words are what the flag text holds between spaces: words
/// without spaces, written with single spaces between them, come back
/// unchanged, one for one.
pub proof fn law_flag_words_of_joined_words(ws: Seq<Seq<char>>)
    requires
        forall|i: int| 0 <= i < ws.len() ==> (#[trigger] ws[i]).len() > 0 && !ws[i].contains(' '),
    ensures
        flag_words(join_with(ws, ' ')) == ws,
{
    if ws.len() == 0 {
        assert(join_with(ws, ' ') == Seq::<char>::empty());
        assert(split_on(Seq::<char>::empty(), ' ') =~= seq![Seq::<char>::empty()]);
        reveal(Seq::filter);
        let one = seq![Seq::<char>::empty()];
        assert(one.drop_last() =~= Seq::<Seq<char>>::empty());
        assert(Seq::<Seq<char>>::empty().filter(non_empty()) =~= Seq::<Seq<char>>::empty());
        assert(one.last() == Seq::<char>::empty());
        assert(!(non_empty())(one.last()));
        assert(one.filter(non_empty()) =~= Seq::<Seq<char>>::empty());
    } else {
        law_split_inverts_join(ws, ' ');
        lemma_filter_keeps_all(ws);
    }
}

/// Every flag word is a non-empty text without a space.
pub proof fn law_flag_words_are_words(flags: Seq<char>)
    ensures
        forall|i: int|
            0 <= i < flag_words(flags).len() ==> (#[trigger] flag_words(flags)[i]).len() > 0
                && !flag_words(flags)[i].contains(' '),
{
    let ps = split_on(flags, ' ');
    lemma_split_pieces_lack_sep(flags, ' ');
    lemma_filter_nonempty_pieces(ps);
}

/// No piece of a split holds the separator.
proof fn lemma_split_pieces_lack_sep(s: Seq<char>, sep: char)
    ensures
        forall|i: int| 0 <= i < split_on(s, sep).len() ==> !(#[trigger] split_on(s, sep)[i]).contains(sep),
    decreases s.len(),
{
    if s.len() == 0 {
        assert(split_on(s, sep)[0] =~= Seq::<char>::empty());
    } else {
        lemma_split_pieces_lack_sep(s.drop_last(), sep);
        crate::text::lemma_split_nonempty(s.drop_last(), sep);
        let prev = split_on(s.drop_last(), sep);
        let cur = split_on(s, sep);
        assert forall|i: int| 0 <= i < cur.len() implies !(#[trigger] cur[i]).contains(sep) by {
            if s.last() == sep {
                if i < prev.len() {
                    assert(cur[i] == prev[i]);
                } else {
                    assert(cur[i] =~= Seq::<char>::empty());
                }
            } else if i < prev.len() - 1 {
                assert(cur[i] == prev[i]);
            } else {
                let x = prev.last().push(s.last());
                assert(cur[i] == x);
                assert(!prev[prev.len() - 1].contains(sep));
                if x.contains(sep) {
                    let j = choose|j: int| 0 <= j < x.len() && x[j] == sep;
                    if j < prev.last().len() {
                        assert(prev.last()[j] == sep);
                    }
                }
            }
        }
    }
}

/// Filtering for non-empty words keeps each non-empty piece.
proof fn lemma_filter_keeps_all(ws: Seq<Seq<char>>)
    requires
        forall|i: int| 0 <= i < ws.len() ==> (#[trigger] ws[i]).len() > 0,
    ensures
        ws.filter(non_empty()) == ws,
    decreases ws.len(),
{
    reveal(Seq::filter);
    if ws.len() > 0 {
        lemma_filter_keeps_all(ws.drop_last());
        assert(ws.drop_last().push(ws.last()) =~= ws);
    } else {
        assert(ws.filter(non_empty()) =~= ws);
    }
}

/// What survives the filter is non-empty and holds no space, when the
/// pieces hold none.
proof fn lemma_filter_nonempty_pieces(ps: Seq<Seq<char>>)
    requires
        forall|i: int| 0 <= i < ps.len() ==> !(#[trigger] ps[i]).contains(' '),
    ensures
        forall|i: int|
            0 <= i < ps.filter(non_empty()).len() ==> (#[trigger] ps.filter(non_empty())[i]).len() > 0
                && !ps.filter(non_empty())[i].contains(' '),
    decreases ps.len(),
{
    reveal(Seq::filter);
    if ps.len() > 0 {
        lemma_filter_nonempty_pieces(ps.drop_last());
        let f = ps.filter(non_empty());
        let g = ps.drop_last().filter(non_empty());
        assert forall|i: int| 0 <= i < f.len() implies (#[trigger] f[i]).len() > 0 && !f[i].contains(' ') by {
            if i < g.len() {
                assert(f[i] == g[i]);
            } else {
                assert(f[i] == ps.last());
            }
        }
    }
}

/// One retention command per policy, in the policies' order: for the k-th
/// policy, `zfs-auto-snapshot --quiet --destroy-only --label=L --keep=N
/// target` with its label and its count written in decimal.
pub proof fn law_one_retention_command_per_policy(policies: Seq<KeepPolicy>, target: Seq<char>)
    ensures
        retention_commands_of(policies, target).len() == policies.len(),
        forall|k: int|
            0 <= k < policies.len() ==> #[trigger] retention_commands_of(policies, target)[k] == seq![
                "zfs-auto-snapshot"@,
                "--quiet"@,
                "--destroy-only"@,
                "--label="@ + policies[k].label@,
                "--keep="@ + decimal_digits(policies[k].count as nat),
                target,
            ],
{
}

} // verus!
