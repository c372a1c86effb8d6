# SysMedic

A doctor for a Linux system: it examines the machine, diagnoses what is
wrong, explains each finding in English and Arabic, prescribes safe fixes
with a preview and an undo, and follows up with scheduled checkups.

## Layout

- `src/` — the library, verified with Verus. It holds the domain model
  (severities, categories, findings, fix plans), the scoring rules, the
  parsers that turn procfs files and tool output into a snapshot, the
  diagnostic rules, the fix registry with its transaction journal and the
  apply/undo state machine, the privileged helper's argument checks, the
  alerts, the history trend, the disk-usage tree, and every text the
  program prints (terminal report, Markdown, HTML, fix previews, the
  language-model request). Each public function states its result in its
  contract; the properties that span functions are public proof functions
  (`lemma_*`).
- `tests/` — tests of the library on concrete values.
- `app/` — the `sysmedic` command: argument parsing, reading files and
  running system tools, the readings that are fractional (load averages,
  temperatures, boot time, battery health) and the rules over them, writing
  reports and the journal, launching the privileged helper through pkexec,
  and the network calls. Invoked as `sysmedic-fix-helper` or
  `sysmedic-fix-helper-destructive` it acts as the privileged helper of that
  tier.

The explanation texts are read at run time from
`/usr/share/sysmedic/knowledge.yaml`.
