# fs_util

A command line tool that reads and writes a content-addressed store of files and
directories: it saves files and directories, prints and materializes what is
stored, lists the files below a directory, and collects garbage.

The decisions are a library, verified with Verus. It never touches a disk or a
network: a run asks for one thing to be done outside after the other, and is
handed each reply.

- `src/args.rs`: the command line, read from what the argument parser found.
- `src/execute.rs`, `src/execution.rs`: a run, step by step.
- `src/protocol.rs`: what a run asks for, and the replies.
- `src/store.rs`, `src/digest.rs`, `src/report.rs`, `src/exit.rs`: how the store
  is opened, what addresses a blob, what is printed, and how a run fails.
- `src/listing.rs`, `src/order.rs`, `src/text.rs`: listing files recursively,
  the order of names, and text.
- `src/walk.rs`, `src/composition.rs`, `src/outcome.rs`, `src/laws.rs`: what
  listings and runs come to as a whole, and what holds of every one of them.
- `app/`: the program around the library. It parses the command line, does what
  a run asks for, and prints.
