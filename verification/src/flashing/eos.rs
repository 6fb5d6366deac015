use vstd::prelude::*;
use crate::flashing::downloader::{ImageDownloader, plain_component};
use crate::flashing::listing::{first_word, first_word_spec, greatest, is_greatest};
use crate::flashing::progress::{
    Action, ActionView, InstallProgress, ProgressView, actions_view, advance_spec, download, run_command, runs_verb, flashing, flashing_view, prompt,
    prompt_view, report, run, run_plain, status, status_view, try_run, verify, verifying, verifying_view,
};
use crate::hardware::adb::Adb;
use crate::hardware::command::{command_view, owned};
use crate::hardware::fastboot::Fastboot;
use crate::paths::{join_path, join_spec};
use crate::text::{
    cat, cat3, chars_of, concat, contains, contains_spec, ends_with, ends_with_spec, find, find_spec, lemma_find_from,
    occurs_at, seqs_of, slice_of, starts_with, starts_with_spec, string_of,
};

verus! {

broadcast use vstd::string::group_string_axioms;

/// Orchestrates /e/OS installation: flash the build's recovery to the boot
/// partition, then sideload the ROM from recovery after a factory reset.
#[derive(Debug)]
pub struct EosInstaller {
    pub serial: String,
    pub base_url: String,
    pub codename: String,
    pub channel: String,
    pub download_dir: String,
}

/// Why an /e/OS installation cannot go on.
#[derive(Debug, Clone, PartialEq, Eq)]
pub enum EosError {
    /// The index lists no ROM for the channel and codename.
    NoRom,
    /// The index lists no recovery for the channel and codename.
    NoRecovery,
    /// The checksum file is empty.
    EmptyChecksum,
}

/// The `href=` values of an HTML text, in order: quoted with `"` or `'`, or
/// unquoted up to `>`; an unterminated one is skipped.
pub open spec fn eos_hrefs(s: Seq<char>) -> Seq<Seq<char>>
    decreases s.len(),
{
    match find_spec(s, "href="@) {
        None => seq![],
        Some(p) => {
            proof {
                lemma_find_from(s, "href="@, 0);
                reveal_strlit("href=");
            }
            let r = s.skip(p + 5);
            if r.len() > 0 && (r[0] == '"' || r[0] == '\'') {
                let q = r.skip(1);
                let close = if r[0] == '"' {
                    "\""@
                } else {
                    "'"@
                };
                match find_spec(q, close) {
                    Some(e) => {
                        proof {
                            lemma_find_from(q, close, 0);
                            reveal_strlit("\"");
                            reveal_strlit("'");
                        }
                        seq![q.take(e)] + eos_hrefs(q.skip(e + 1))
                    },
                    None => eos_hrefs(r),
                }
            } else {
                match find_spec(r, ">"@) {
                    Some(e) => {
                        proof {
                            lemma_find_from(r, ">"@, 0);
                            reveal_strlit(">");
                        }
                        seq![r.take(e)] + eos_hrefs(r.skip(e + 1))
                    },
                    None => eos_hrefs(r),
                }
            }
        },
    }
}

/// A file of the channel and device: it names `-{channel}-` and
/// `-community-{codename}.`.
pub open spec fn of_device(f: Seq<char>, channel: Seq<char>, codename: Seq<char>) -> bool {
    contains_spec(f, "-"@ + channel + "-"@) && contains_spec(f, "-community-"@ + codename + "."@)
}

pub open spec fn is_recovery(f: Seq<char>) -> bool {
    starts_with_spec(f, "recovery-"@) && !ends_with_spec(f, ".sha256sum"@) && !ends_with_spec(f, ".md5sum"@)
}

pub open spec fn is_rom(f: Seq<char>) -> bool {
    !is_recovery(f) && starts_with_spec(f, "e-"@) && ends_with_spec(f, ".zip"@) && !contains_spec(f, "recovery"@)
}

/// The files of the device among `hs` that are recoveries (`recovery`) or
/// ROMs (`!recovery`), in order.
pub open spec fn candidates(hs: Seq<Seq<char>>, channel: Seq<char>, codename: Seq<char>, recovery: bool) -> Seq<Seq<char>>
    decreases hs.len(),
{
    if hs.len() == 0 {
        seq![]
    } else {
        let f = hs.last();
        let rest = candidates(hs.drop_last(), channel, codename, recovery);
        if of_device(f, channel, codename) && ((recovery && is_recovery(f)) || (!recovery && is_rom(f))) {
            rest.push(f)
        } else {
            rest
        }
    }
}

/// A text without its trailing `/`s.
pub open spec fn trim_slashes(s: Seq<char>) -> Seq<char>
    decreases s.len(),
{
    if s.len() > 0 && s.last() == '/' {
        trim_slashes(s.drop_last())
    } else {
        s
    }
}

fn eos_hrefs_exec(text: &Vec<char>) -> (r: Vec<Vec<char>>)
    ensures
        seqs_of(r@) == eos_hrefs(text@),
{
    let pat = chars_of("href=");
    let dq = chars_of("\"");
    let sq = chars_of("'");
    let gt = chars_of(">");
    proof {
        reveal_strlit("href=");
        reveal_strlit("\"");
        reveal_strlit("'");
        reveal_strlit(">");
    }
    let mut found: Vec<Vec<char>> = Vec::new();
    let mut rem: Vec<char> = text.clone();
    loop
        invariant
            pat@ == "href="@,
            dq@ == "\""@,
            sq@ == "'"@,
            gt@ == ">"@,
            pat@.len() == 5,
            dq@.len() == 1,
            sq@.len() == 1,
            gt@.len() == 1,
            eos_hrefs(text@) == seqs_of(found@) + eos_hrefs(rem@),
        decreases rem.len(),
    {
        proof {
            lemma_find_from(rem@, pat@, 0);
        }
        let p = match find(&rem, &pat) {
            Some(p) => p,
            None => {
                assert(eos_hrefs(rem@) =~= Seq::<Seq<char>>::empty());
                assert(seqs_of(found@) + eos_hrefs(rem@) =~= seqs_of(found@));
                return found;
            },
        };
        assert(occurs_at(rem@, pat@, p as int));
        assert(pat@.len() == 5);
        assert(p + pat@.len() <= rem@.len());
        let r = slice_of(&rem, p + 5, rem.len());
        assert(r@ =~= rem@.skip(p + 5));
        let ghost before = seqs_of(found@);
        if r.len() > 0 && (r[0] == '"' || r[0] == '\'') {
            let q = slice_of(&r, 1, r.len());
            assert(q@ =~= r@.skip(1));
            let close = if r[0] == '"' {
                &dq
            } else {
                &sq
            };
            proof {
                lemma_find_from(q@, close@, 0);
            }
            match find(&q, close) {
                Some(e) => {
                    assert(occurs_at(q@, close@, e as int));
                    assert(close@.len() == 1);
                    assert(e + close@.len() <= q@.len());
                    let h = slice_of(&q, 0, e);
                    assert(h@ =~= q@.take(e as int));
                    let next = slice_of(&q, e + 1, q.len());
                    assert(next@ =~= q@.skip(e + 1));
                    let ghost hv = h@;
                    found.push(h);
                    assert(seqs_of(found@) =~= before.push(hv));
                    assert(before + (seq![hv] + eos_hrefs(next@)) =~= before.push(hv) + eos_hrefs(next@));
                    rem = next;
                },
                None => {
                    rem = r;
                },
            }
        } else {
            proof {
                lemma_find_from(r@, gt@, 0);
            }
            match find(&r, &gt) {
                Some(e) => {
                    assert(occurs_at(r@, gt@, e as int));
                    assert(gt@.len() == 1);
                    assert(e + gt@.len() <= r@.len());
                    let h = slice_of(&r, 0, e);
                    assert(h@ =~= r@.take(e as int));
                    let next = slice_of(&r, e + 1, r.len());
                    assert(next@ =~= r@.skip(e + 1));
                    let ghost hv = h@;
                    found.push(h);
                    assert(seqs_of(found@) =~= before.push(hv));
                    assert(before + (seq![hv] + eos_hrefs(next@)) =~= before.push(hv) + eos_hrefs(next@));
                    rem = next;
                },
                None => {
                    rem = r;
                },
            }
        }
    }
}

/// The steps of an /e/OS installation once the build is known; it stops at
/// a download whose file name is refused.
pub open spec fn eos_plan_spec(
    inst: EosInstaller,
    adb: Seq<char>,
    fastboot: Seq<char>,
    recovery_url: Seq<char>,
    recovery_name: Seq<char>,
    recovery_sha256: Seq<char>,
    rom_url: Seq<char>,
    rom_name: Seq<char>,
    rom_sha256: Seq<char>,
) -> Seq<ActionView> {
    let serial = inst.serial@;
    let dir = inst.download_dir@;
    let dl_recovery = seq![
        status_view("Downloading /e/OS recovery..."@),
        ActionView::Download {
            url: recovery_url,
            file_name: recovery_name,
            sha256: Some(recovery_sha256),
            label: "Recovery image"@,
            context: "Failed to download /e/OS recovery"@,
        },
    ];
    let dl_rom = seq![
        status_view("Downloading /e/OS ROM..."@),
        ActionView::Download {
            url: rom_url,
            file_name: rom_name,
            sha256: Some(rom_sha256),
            label: "/e/OS ROM"@,
            context: "Failed to download /e/OS ROM"@,
        },
    ];
    if plain_component(recovery_name) is None {
        dl_recovery
    } else if plain_component(rom_name) is None {
        dl_recovery + dl_rom
    } else {
        let recovery_path = join_spec(dir, plain_component(recovery_name)->0);
        let rom_path = join_spec(dir, plain_component(rom_name)->0);
        dl_recovery + dl_rom + seq![
            verifying_view(0, 2, "Verifying recovery checksum"@),
            ActionView::Verify {
                path: recovery_path,
                sha256: recovery_sha256,
                mismatch: "Checksum mismatch for /e/OS recovery image"@,
            },
            verifying_view(1, 2, "Verifying ROM checksum"@),
            ActionView::Verify { path: rom_path, sha256: rom_sha256, mismatch: "Checksum mismatch for /e/OS ROM zip"@ },
            verifying_view(2, 2, "Checksums verified"@),
            status_view("Rebooting to bootloader..."@),
            ActionView::Run {
                command: command_view(adb, seq!["-s"@, serial, "reboot"@, "bootloader"@]),
                context: None,
                tolerant: true,
            },
            status_view("Waiting for device in fastboot mode..."@),
            ActionView::WaitForFastboot,
            flashing_view(1, 2, "Flashing /e/OS recovery (boot)..."@),
            ActionView::Run {
                command: command_view(fastboot, seq!["-s"@, serial, "flash"@, "boot"@, recovery_path]),
                context: Some("Failed to flash /e/OS recovery to boot partition"@),
                tolerant: false,
            },
            ActionView::Report(ProgressView::WaitingForRecovery),
            ActionView::Run {
                command: command_view(adb, seq!["-s"@, serial, "wait-for-recovery"@]),
                context: None,
                tolerant: false,
            },
            ActionView::Report(ProgressView::RecoveryDetected),
            ActionView::Sleep(3),
            prompt_view(
                "On your phone:\n1. Select \"Factory reset\" → \"Format data/factory reset\" → confirm\n2. Go back, select \"Apply update\" → \"Apply from ADB\""@,
            ),
            ActionView::Run {
                command: command_view(adb, seq!["-s"@, serial, "wait-for-sideload"@]),
                context: None,
                tolerant: false,
            },
            ActionView::Sleep(2),
            flashing_view(2, 2, "Sideloading /e/OS ROM..."@),
            ActionView::Run {
                command: command_view(adb, seq!["-s"@, serial, "sideload"@, rom_path]),
                context: Some("Failed to sideload /e/OS ROM"@),
                tolerant: false,
            },
            prompt_view("Sideload complete! On your phone: Select \"Reboot system now\""@),
            ActionView::Report(ProgressView::Complete),
        ]
    }
}

impl EosInstaller {
    /// An installer whose downloads go to `{cache_dir}/sidestep/eos`.
    pub fn new(serial: String, base_url: String, codename: String, channel: String, cache_dir: &str) -> (r: Self)
        ensures
            r.serial == serial,
            r.base_url == base_url,
            r.codename == codename,
            r.channel == channel,
            r.download_dir@ == join_spec(join_spec(cache_dir@, "sidestep"@), "eos"@),
    {
        let base = join_path(cache_dir, "sidestep");
        EosInstaller { serial, base_url, codename, channel, download_dir: join_path(base.as_str(), "eos") }
    }

    /// The latest build of the image index: the greatest ROM and recovery
    /// file names of the channel and device (their names hold dates), their
    /// URLs under the index, and the URLs of the ROM's and the recovery's
    /// `.sha256sum` files.
    pub fn find_latest_build(&self, html: &str) -> (r: Result<(String, String, String, String, String, String), EosError>)
        ensures
            match r {
                Ok((recovery_url, recovery_name, rom_url, rom_name, sha256_url, recovery_sha256_url)) => {
                    let hs = eos_hrefs(html@);
                    let base = trim_slashes(self.base_url@);
                    &&& is_greatest(candidates(hs, self.channel@, self.codename@, false), rom_name@)
                    &&& is_greatest(candidates(hs, self.channel@, self.codename@, true), recovery_name@)
                    &&& rom_url@ == base + "/"@ + rom_name@
                    &&& recovery_url@ == base + "/"@ + recovery_name@
                    &&& sha256_url@ == rom_url@ + ".sha256sum"@
                    &&& recovery_sha256_url@ == recovery_url@ + ".sha256sum"@
                },
                Err(EosError::NoRom) => candidates(eos_hrefs(html@), self.channel@, self.codename@, false).len() == 0,
                Err(EosError::NoRecovery) => candidates(eos_hrefs(html@), self.channel@, self.codename@, false).len() > 0
                    && candidates(eos_hrefs(html@), self.channel@, self.codename@, true).len() == 0,
                Err(_) => false,
            },
    {
        let text = chars_of(html);
        let hs = eos_hrefs_exec(&text);
        let ghost hv = seqs_of(hs@);
        let ch = chars_of(cat3("-", self.channel.as_str(), "-").as_str());
        let cn = chars_of(cat3("-community-", self.codename.as_str(), ".").as_str());
        let rec = chars_of("recovery-");
        let s256 = chars_of(".sha256sum");
        let md5 = chars_of(".md5sum");
        let e_ = chars_of("e-");
        let zip = chars_of(".zip");
        let recw = chars_of("recovery");
        let mut roms: Vec<Vec<char>> = Vec::new();
        let mut recs: Vec<Vec<char>> = Vec::new();
        for i in 0..hs.len()
            invariant
                hv == seqs_of(hs@),
                hv == eos_hrefs(html@),
                ch@ == "-"@ + self.channel@ + "-"@,
                cn@ == "-community-"@ + self.codename@ + "."@,
                rec@ == "recovery-"@,
                s256@ == ".sha256sum"@,
                md5@ == ".md5sum"@,
                e_@ == "e-"@,
                zip@ == ".zip"@,
                recw@ == "recovery"@,
                seqs_of(roms@) == candidates(hv.take(i as int), self.channel@, self.codename@, false),
                seqs_of(recs@) == candidates(hv.take(i as int), self.channel@, self.codename@, true),
        {
            assert(hv.take(i + 1).drop_last() =~= hv.take(i as int));
            assert(hv.take(i + 1).last() == hs@[i as int]@);
            let ghost r0 = seqs_of(roms@);
            let ghost c0 = seqs_of(recs@);
            let f = &hs[i];
            if contains(f, &ch) && contains(f, &cn) {
                if starts_with(f, &rec) && !ends_with(f, &s256) && !ends_with(f, &md5) {
                    recs.push(f.clone());
                    assert(seqs_of(recs@) =~= c0.push(f@));
                    assert(seqs_of(roms@) =~= r0);
                } else if starts_with(f, &e_) && ends_with(f, &zip) && !contains(f, &recw) {
                    roms.push(f.clone());
                    assert(seqs_of(roms@) =~= r0.push(f@));
                    assert(seqs_of(recs@) =~= c0);
                }
            }
        }
        assert(hv.take(hs.len() as int) =~= hv);
        let rom_name = match greatest(&roms) {
            Some(k) => string_of(&roms[k]),
            None => {
                return Err(EosError::NoRom);
            },
        };
        let recovery_name = match greatest(&recs) {
            Some(k) => string_of(&recs[k]),
            None => {
                return Err(EosError::NoRecovery);
            },
        };
        let base = trim_slashes_exec(self.base_url.as_str());
        let rom_url = cat3(base.as_str(), "/", rom_name.as_str());
        let recovery_url = cat3(base.as_str(), "/", recovery_name.as_str());
        let sha256_url = cat(rom_url.as_str(), ".sha256sum");
        let recovery_sha256_url = cat(recovery_url.as_str(), ".sha256sum");
        Ok((recovery_url, recovery_name, rom_url, rom_name, sha256_url, recovery_sha256_url))
    }

    /// The hash in a `.sha256sum` file: its first word (`hash  filename` or
    /// just `hash`).
    pub fn parse_sha256(text: &str) -> (r: Result<String, EosError>)
        ensures
            match r {
                Ok(h) => first_word_spec(text@) == Some(h@),
                Err(e) => first_word_spec(text@) is None && e == EosError::EmptyChecksum,
            },
    {
        match first_word(text) {
            Some(w) => Ok(w),
            None => Err(EosError::EmptyChecksum),
        }
    }

    /// The steps of the installation once the build and the hashes of its
    /// recovery and ROM are known.
    pub fn plan(
        &self,
        adb: &Adb,
        fastboot: &Fastboot,
        recovery_url: &str,
        recovery_name: &str,
        recovery_sha256: &str,
        rom_url: &str,
        rom_name: &str,
        rom_sha256: &str,
    ) -> (r: Vec<Action>)
        ensures
            actions_view(r@) == eos_plan_spec(
                *self,
                adb.binary_path(),
                fastboot.binary_path(),
                recovery_url@,
                recovery_name@,
                recovery_sha256@,
                rom_url@,
                rom_name@,
                rom_sha256@,
            ),
    {
        let ghost spec = eos_plan_spec(
            *self,
            adb.binary_path(),
            fastboot.binary_path(),
            recovery_url@,
            recovery_name@,
            recovery_sha256@,
            rom_url@,
            rom_name@,
            rom_sha256@,
        );
        let downloader = ImageDownloader::new(self.download_dir.as_str());
        let serial = self.serial.as_str();
        let mut plan: Vec<Action> = Vec::new();
        plan.push(status("Downloading /e/OS recovery..."));
        plan.push(download(recovery_url, recovery_name, Some(recovery_sha256), "Recovery image", "Failed to download /e/OS recovery"));
        let recovery_path = match downloader.safe_dest(recovery_name) {
            Ok(p) => p,
            Err(_) => {
                assert(actions_view(plan@) =~= spec);
                return plan;
            },
        };
        plan.push(status("Downloading /e/OS ROM..."));
        plan.push(download(rom_url, rom_name, Some(rom_sha256), "/e/OS ROM", "Failed to download /e/OS ROM"));
        let rom_path = match downloader.safe_dest(rom_name) {
            Ok(p) => p,
            Err(_) => {
                assert(actions_view(plan@) =~= spec);
                return plan;
            },
        };
        plan.push(verifying(0, 2, "Verifying recovery checksum"));
        plan.push(verify(recovery_path.as_str(), recovery_sha256, "Checksum mismatch for /e/OS recovery image"));
        plan.push(verifying(1, 2, "Verifying ROM checksum"));
        plan.push(verify(rom_path.as_str(), rom_sha256, "Checksum mismatch for /e/OS ROM zip"));
        plan.push(verifying(2, 2, "Checksums verified"));
        plan.push(status("Rebooting to bootloader..."));
        plan.push(try_run(adb.reboot_bootloader(serial)));
        plan.push(status("Waiting for device in fastboot mode..."));
        plan.push(Action::WaitForFastboot);
        plan.push(flashing(1, 2, "Flashing /e/OS recovery (boot)..."));
        plan.push(run(fastboot.flash(serial, "boot", recovery_path.as_str()), "Failed to flash /e/OS recovery to boot partition"));
        plan.push(report(InstallProgress::WaitingForRecovery));
        plan.push(run_plain(adb.wait_for_recovery(serial)));
        plan.push(report(InstallProgress::RecoveryDetected));
        plan.push(Action::Sleep(3));
        plan.push(
            prompt(
                "On your phone:\n1. Select \"Factory reset\" → \"Format data/factory reset\" → confirm\n2. Go back, select \"Apply update\" → \"Apply from ADB\"",
            ),
        );
        plan.push(run_plain(adb.wait_for_sideload(serial)));
        plan.push(Action::Sleep(2));
        plan.push(flashing(2, 2, "Sideloading /e/OS ROM..."));
        plan.push(run(adb.sideload(serial, rom_path.as_str()), "Failed to sideload /e/OS ROM"));
        plan.push(prompt("Sideload complete! On your phone: Select \"Reboot system now\""));
        plan.push(report(InstallProgress::Complete));
        assert(actions_view(plan@) =~= spec);
        plan
    }
}

/// Both downloads are checked before the device is touched: in an /e/OS
/// plan whose file names are accepted, the recovery's and the ROM's
/// checksums are verified (steps 5 and 7) before any command runs, and a
/// checksum that does not match, or cannot be read, ends the installation
/// there, so nothing is flashed or sideloaded.
pub proof fn lemma_eos_checks_before_flashing(
    inst: EosInstaller,
    adb: Seq<char>,
    fastboot: Seq<char>,
    recovery_url: Seq<char>,
    recovery_name: Seq<char>,
    recovery_sha256: Seq<char>,
    rom_url: Seq<char>,
    rom_name: Seq<char>,
    rom_sha256: Seq<char>,
    reason: Option<Seq<char>>,
)
    requires
        plain_component(recovery_name) is Some,
        plain_component(rom_name) is Some,
    ensures
        ({
            let p = eos_plan_spec(
                inst,
                adb,
                fastboot,
                recovery_url,
                recovery_name,
                recovery_sha256,
                rom_url,
                rom_name,
                rom_sha256,
            );
            let dir = inst.download_dir@;
            &&& p[1] matches ActionView::Download { sha256: Some(h), .. } && h == recovery_sha256
            &&& p[3] matches ActionView::Download { sha256: Some(h), .. } && h == rom_sha256
            &&& p[5] == (ActionView::Verify {
                path: join_spec(dir, plain_component(recovery_name)->0),
                sha256: recovery_sha256,
                mismatch: "Checksum mismatch for /e/OS recovery image"@,
            })
            &&& p[7] == (ActionView::Verify {
                path: join_spec(dir, plain_component(rom_name)->0),
                sha256: rom_sha256,
                mismatch: "Checksum mismatch for /e/OS ROM zip"@,
            })
            &&& forall|j: int| 0 <= j <= 7 ==> !(#[trigger] p[j] is Run) && !(p[j] is WaitForFastboot)
            &&& advance_spec(p, 5, Some(reason)) is Fail
            &&& advance_spec(p, 7, Some(reason)) is Fail
        }),
{
}

/// What an /e/OS plan installs is what it checked: in a plan whose file
/// names are accepted, the only `fastboot flash` writes the recovery, at its
/// download path, to `boot`; the only `adb sideload` sends the ROM zip at its
/// download path; and those are the paths whose checksums were verified
/// against the recovery's and the ROM's hashes, before either runs.
pub proof fn lemma_eos_installs_what_it_checked(
    inst: EosInstaller,
    adb: Seq<char>,
    fastboot: Seq<char>,
    recovery_url: Seq<char>,
    recovery_name: Seq<char>,
    recovery_sha256: Seq<char>,
    rom_url: Seq<char>,
    rom_name: Seq<char>,
    rom_sha256: Seq<char>,
)
    requires
        plain_component(recovery_name) is Some,
        plain_component(rom_name) is Some,
    ensures
        ({
            let p = eos_plan_spec(
                inst,
                adb,
                fastboot,
                recovery_url,
                recovery_name,
                recovery_sha256,
                rom_url,
                rom_name,
                rom_sha256,
            );
            let recovery_path = join_spec(inst.download_dir@, plain_component(recovery_name)->0);
            let rom_path = join_spec(inst.download_dir@, plain_component(rom_name)->0);
            let serial = inst.serial@;
            &&& forall|j: int|
                0 <= j < p.len() && runs_verb(#[trigger] p[j], "flash"@) ==> run_command(p[j]) == Some(
                    command_view(fastboot, seq!["-s"@, serial, "flash"@, "boot"@, recovery_path]),
                ) && 5 < j
            &&& forall|j: int|
                0 <= j < p.len() && runs_verb(#[trigger] p[j], "sideload"@) ==> run_command(p[j]) == Some(
                    command_view(adb, seq!["-s"@, serial, "sideload"@, rom_path]),
                ) && 7 < j
            &&& exists|j: int|
                0 <= j < p.len() && #[trigger] p[j] == (ActionView::Run {
                    command: command_view(fastboot, seq!["-s"@, serial, "flash"@, "boot"@, recovery_path]),
                    context: Some("Failed to flash /e/OS recovery to boot partition"@),
                    tolerant: false,
                })
            &&& exists|j: int|
                0 <= j < p.len() && #[trigger] p[j] == (ActionView::Run {
                    command: command_view(adb, seq!["-s"@, serial, "sideload"@, rom_path]),
                    context: Some("Failed to sideload /e/OS ROM"@),
                    tolerant: false,
                })
            &&& p[5] matches ActionView::Verify { path, sha256, .. } && path == recovery_path && sha256 == recovery_sha256
            &&& p[7] matches ActionView::Verify { path, sha256, .. } && path == rom_path && sha256 == rom_sha256
        }),
{
    reveal_strlit("flash");
    reveal_strlit("sideload");
    reveal_strlit("reboot");
    reveal_strlit("wait-for-recovery");
    reveal_strlit("wait-for-sideload");
    let p = eos_plan_spec(
        inst,
        adb,
        fastboot,
        recovery_url,
        recovery_name,
        recovery_sha256,
        rom_url,
        rom_name,
        rom_sha256,
    );
    assert(p.len() == 26);
    assert(p[14] is Run);
    assert(p[23] is Run);
    assert("flash"@.len() == 5 && "sideload"@.len() == 8 && "reboot"@.len() == 6);
    assert("wait-for-recovery"@.len() == 17 && "wait-for-sideload"@.len() == 17);
    assert forall|j: int| 0 <= j < p.len() implies (runs_verb(#[trigger] p[j], "flash"@) ==> run_command(p[j]) == Some(
        command_view(fastboot, seq!["-s"@, inst.serial@, "flash"@, "boot"@, join_spec(inst.download_dir@, plain_component(recovery_name)->0)]),
    ) && 5 < j) && (runs_verb(p[j], "sideload"@) ==> run_command(p[j]) == Some(
        command_view(adb, seq!["-s"@, inst.serial@, "sideload"@, join_spec(inst.download_dir@, plain_component(rom_name)->0)]),
    ) && 7 < j) by {
        if j == 0 {
        } else if j == 1 {
        } else if j == 2 {
        } else if j == 3 {
        } else if j == 4 {
        } else if j == 5 {
        } else if j == 6 {
        } else if j == 7 {
        } else if j == 8 {
        } else if j == 9 {
        } else if j == 10 {
            assert(run_command(p[10])->0.args[2] == "reboot"@);
        } else if j == 11 {
        } else if j == 12 {
        } else if j == 13 {
        } else if j == 14 {
            assert(run_command(p[14])->0.args[2] == "flash"@);
        } else if j == 15 {
        } else if j == 16 {
            assert(run_command(p[16])->0.args[2] == "wait-for-recovery"@);
        } else if j == 17 {
        } else if j == 18 {
        } else if j == 19 {
        } else if j == 20 {
            assert(run_command(p[20])->0.args[2] == "wait-for-sideload"@);
        } else if j == 21 {
        } else if j == 22 {
        } else if j == 23 {
            assert(run_command(p[23])->0.args[2] == "sideload"@);
        } else if j == 24 {
        } else if j == 25 {
        }
    }
}

/// A text without its trailing `/`s.
pub fn trim_slashes_exec(s: &str) -> (r: String)
    ensures
        r@ == trim_slashes(s@),
{
    let v = chars_of(s);
    let mut n: usize = v.len();
    assert(v@.take(n as int) =~= v@);
    while n > 0 && v[n - 1] == '/'
        invariant
            n <= v.len(),
            trim_slashes(s@) == trim_slashes(v@.take(n as int)),
            v@ == s@,
        decreases n,
    {
        assert(v@.take(n as int).drop_last() =~= v@.take(n - 1));
        n = n - 1;
    }
    let t = slice_of(&v, 0, n);
    assert(t@ =~= v@.take(n as int));
    string_of(&t)
}

} // verus!
