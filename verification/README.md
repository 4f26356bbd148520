# task_shell

The decision logic of a small, POSIX-like task shell, written and proved in Verus.

A shell mostly waits: for programs, for files, for other tasks. This library does none of that. It
decides. Each construct of the shell (a list, a pipeline, a loop, a word) is a value that stops
where it needs something from outside, says what it needs, and goes on with the reply:

```text
execute_sequential_list(list, behavior)
    -> ListStep::Run(sequence, run)          run the sequence, please
run.on_result(result, &mut state)
    -> ListStep::Done(result)                this is what came of it
```

The contract of each of these functions says exactly which step follows, for every reply, and what
becomes of the state of the shell. Proof functions named `law_...` state what holds over many steps.

- `text`, `types`, `state`, `syntax`: texts, results and changes, the state, the syntax tree
- `arithmetic`, `pattern`, `words`, `expand`, `modifier`, `word_run`, `args`: values of words
- `condition`, `branches`, `loops`: conditions, and what depends on them
- `run`, `list`, `sequence`, `redirect`, `command`, `set`: running commands

Glob patterns are matched by the `glob` crate; `pattern` says what is taken on trust of it. `set`,
`text` and `expand` take a little of the standard library on trust. Whether a path is absolute is for
the system to say.

`app/` holds the streams, tasks, files and programs around the library.
